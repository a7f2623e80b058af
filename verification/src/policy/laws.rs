//! What holds of every policy.
use super::generation::{generated_name, generated_policy, generated_rule, nonempty};
use super::validation::{
    allows_endpoint, allows_some_endpoint, policy_failure, rule_failure, rules_failure, start_failure,
};
use super::{
    applies_to, device_matches, policy_decision, Action, DecisionView, DeviceMatcherView,
    PolicyView, RuleView,
};
use crate::config::{permits_empty_policy, ConfigView};
use crate::sequence::{first_index, lemma_first_index, lemma_first_index_is};
use crate::sysfs::UsbDeviceView;
use crate::text::{all_hex, blank, lower};
use vstd::prelude::*;

verus! {

/// The first rule that matches decides, whatever the rules behind it say.
pub proof fn law_first_match_wins(p: PolicyView, d: UsbDeviceView, i: int)
    requires
        0 <= i < p.rules.len(),
        device_matches(p.rules[i].matcher, d),
        forall|j: int| 0 <= j < i ==> !device_matches((#[trigger] p.rules[j]).matcher, d),
    ensures
        policy_decision(p, d) == (DecisionView {
            device_id: d.id,
            action: p.rules[i].action,
            reason: "matched rule"@,
            rule: Some(p.rules[i].name),
        }),
{
    lemma_first_index_is(p.rules, applies_to(d), i);
}

/// A device that no rule matches gets the default, save that a hub passes where the default
/// blocks. The reason says which of the two it was.
pub proof fn law_default_decides_the_rest(p: PolicyView, d: UsbDeviceView)
    requires
        forall|j: int| 0 <= j < p.rules.len() ==> !device_matches((#[trigger] p.rules[j]).matcher, d),
    ensures
        policy_decision(p, d).rule is None,
        policy_decision(p, d).action == (if d.is_hub {
            Action::Allow
        } else {
            p.default
        }),
        policy_decision(p, d).reason == (if d.is_hub && p.default == Action::Block {
            "USB hub passthrough"@
        } else {
            "default action"@
        }),
{
    lemma_first_index_is(p.rules, applies_to(d), p.rules.len() as int);
}

/// Under a default that blocks, a device that is not a hub is allowed only by a rule that allows
/// and matches it.
pub proof fn law_allowed_only_by_a_rule(p: PolicyView, d: UsbDeviceView)
    requires
        p.default == Action::Block,
        !d.is_hub,
        policy_decision(p, d).action == Action::Allow,
    ensures
        exists|i: int|
            0 <= i < p.rules.len() && (#[trigger] p.rules[i]).action == Action::Allow
                && device_matches(p.rules[i].matcher, d),
{
    lemma_first_index(p.rules, applies_to(d));
    let i = first_index(p.rules, applies_to(d));
    assert(p.rules[i].action == Action::Allow);
}

/// Every decision is on the device that was asked about, and its action, reason and rule are a
/// function of what the device is: neither the kernel's authorization state nor the sysfs path nor
/// the number that the device goes by has a part in them.
pub proof fn law_decision_ignores_authorization(
    p: PolicyView,
    d: UsbDeviceView,
    id: u32,
    authorized: Option<bool>,
    sysfs_path: Seq<char>,
)
    ensures
        policy_decision(p, UsbDeviceView { id, authorized, sysfs_path, ..d }) == (DecisionView {
            device_id: id,
            ..policy_decision(p, d)
        }),
        policy_decision(p, d).device_id == d.id,
{
    let e = UsbDeviceView { id, authorized, sysfs_path, ..d };
    lemma_first_index(p.rules, applies_to(d));
    let i = first_index(p.rules, applies_to(d));
    assert forall|j: int| 0 <= j < p.rules.len() implies applies_to(e)(p.rules[j]) == applies_to(d)(
        #[trigger] p.rules[j],
    ) by {}
    lemma_first_index_is(p.rules, applies_to(e), i);
}

/// Vendor and product ids are matched without regard to case.
pub proof fn law_ids_ignore_case(m: DeviceMatcherView, d: UsbDeviceView, e: UsbDeviceView)
    requires
        lower(d.vendor_id) == lower(e.vendor_id),
        lower(d.product_id) == lower(e.product_id),
        e == (UsbDeviceView { vendor_id: e.vendor_id, product_id: e.product_id, ..d }),
    ensures
        device_matches(m, d) == device_matches(m, e),
{
}

/// A policy is well formed exactly when each of its rules is.
pub proof fn law_valid_rule_by_rule(rules: Seq<RuleView>)
    ensures
        rules_failure(rules) is None <==> forall|i: int|
            0 <= i < rules.len() ==> rule_failure(#[trigger] rules[i]) is None,
    decreases rules.len(),
{
    if rules.len() > 0 {
        let rest = rules.drop_first();
        law_valid_rule_by_rule(rest);
        if rules_failure(rules) is None {
            assert forall|i: int| 0 <= i < rules.len() implies rule_failure(#[trigger] rules[i]) is None by {
                if i > 0 {
                    assert(rules[i] == rest[i - 1]);
                }
            }
        } else if rule_failure(rules[0]) is None {
            let k = choose|k: int| 0 <= k < rest.len() && rule_failure(#[trigger] rest[k]) is Some;
            assert(rules[k + 1] == rest[k]);
        }
    }
}

/// Enforcement is refused exactly where the policy is malformed, or where nothing permits an empty
/// policy and no rule can allow a device that is not a hub.
pub proof fn law_start_is_refused(p: PolicyView, config: ConfigView)
    ensures
        start_failure(p, config) is Some <==> (policy_failure(p) is Some || (!permits_empty_policy(
            config,
        ) && forall|i: int| 0 <= i < p.rules.len() ==> !allows_endpoint(#[trigger] p.rules[i]))),
{
}

/// A policy that enforcement starts with leaves a way in: some rule can allow an endpoint.
pub proof fn law_no_lockout(p: PolicyView, config: ConfigView)
    requires
        !permits_empty_policy(config),
        start_failure(p, config) is None,
    ensures
        exists|i: int| 0 <= i < p.rules.len() && allows_endpoint(#[trigger] p.rules[i]),
{
}

/// The rule that is generated for a device matches it.
pub proof fn law_generated_rule_matches(d: UsbDeviceView)
    ensures
        device_matches(generated_rule(d).matcher, d),
{
}

/// The rule that is generated for a device with a serial goes with it to any port. One that is
/// generated for a device without a serial matches it at its own port only.
pub proof fn law_generated_rule_follows_the_serial(
    d: UsbDeviceView,
    id: u32,
    authorized: Option<bool>,
    sysfs_path: Seq<char>,
    port_path: Seq<char>,
)
    ensures
        device_matches(
            generated_rule(d).matcher,
            UsbDeviceView { id, authorized, sysfs_path, port_path, ..d },
        ) <==> nonempty(d.serial) is Some || port_path == d.port_path,
{
}

/// A generated policy allows, by a rule, every device that it was generated from.
pub proof fn law_generated_policy_allows(devices: Seq<UsbDeviceView>, i: int)
    requires
        0 <= i < devices.len(),
    ensures
        policy_decision(generated_policy(devices), devices[i]).action == Action::Allow,
        policy_decision(generated_policy(devices), devices[i]).rule is Some,
        policy_decision(generated_policy(devices), devices[i]).reason == "matched rule"@,
{
    let p = generated_policy(devices);
    let f = applies_to(devices[i]);
    law_generated_rule_matches(devices[i]);
    assert(p.rules[i] == generated_rule(devices[i]));
    lemma_first_index(p.rules, f);
    let k = first_index(p.rules, f);
    if k > i {
        assert(!f(p.rules[i]));
    }
    assert(p.rules[k] == generated_rule(devices[k]));
}

/// What a device has to be like for its generated rule to be well formed: four-digit ids, and no
/// empty text where one is used.
pub open spec fn describable(d: UsbDeviceView) -> bool {
    &&& d.vendor_id.len() == 4 && all_hex(d.vendor_id)
    &&& d.product_id.len() == 4 && all_hex(d.product_id)
    &&& d.port_path.len() > 0
    &&& d.descriptor_hash is Some ==> d.descriptor_hash->0.len() > 0
    &&& nonempty(d.product_name) is Some ==> !blank(d.product_name->0)
}

/// A generated policy is well formed, and the daemon may start with it exactly where an empty
/// policy is permitted or one of the devices is not a hub.
pub proof fn law_generated_policy_is_valid(devices: Seq<UsbDeviceView>, config: ConfigView)
    requires
        forall|i: int| 0 <= i < devices.len() ==> describable(#[trigger] devices[i]),
    ensures
        policy_failure(generated_policy(devices)) is None,
        start_failure(generated_policy(devices), config) is None <==> permits_empty_policy(config)
            || exists|i: int| 0 <= i < devices.len() && !(#[trigger] devices[i]).is_hub,
{
    let p = generated_policy(devices);
    assert forall|i: int| 0 <= i < p.rules.len() implies rule_failure(#[trigger] p.rules[i]) is None by {
        let d = devices[i];
        assert(describable(d));
        assert(p.rules[i] == generated_rule(d));
        assert(!blank(generated_name(d))) by {
            if nonempty(d.product_name) is None {
                reveal_strlit("USB ");
                assert(generated_name(d)[0] == 'U');
            }
        }
    }
    law_valid_rule_by_rule(p.rules);
    if exists|i: int| 0 <= i < devices.len() && !(#[trigger] devices[i]).is_hub {
        let i = choose|i: int| 0 <= i < devices.len() && !(#[trigger] devices[i]).is_hub;
        assert(p.rules[i] == generated_rule(devices[i]));
        assert(allows_endpoint(p.rules[i]));
    }
    if allows_some_endpoint(p) {
        let i = choose|i: int| 0 <= i < p.rules.len() && allows_endpoint(#[trigger] p.rules[i]);
        assert(!devices[i].is_hub);
    }
}

} // verus!
