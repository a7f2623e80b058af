//! Which devices a generated policy lets in, told by the devices that it was generated from.
use super::generation::{generated_policy, generated_rule};
use super::matching_laws::{
    decides, law_a_matcher_asks_no_more_than_its_fields,
    law_decisions_come_from_rules_or_the_default, meets,
};
use super::{device_matches, policy_decision, Action};
use crate::sysfs::UsbDeviceView;
use crate::text_laws::same_letters;
use vstd::prelude::*;

verus! {

/// A device has a serial that can be told from others.
pub open spec fn has_serial(d: UsbDeviceView) -> bool {
    d.serial matches Some(serial) && serial.len() > 0
}

/// A device stands for another: it is of the same make, with the same descriptors and connected
/// in the same way, and it has the other's serial, or is at its port where the other has none.
pub open spec fn stands_for(e: UsbDeviceView, d: UsbDeviceView) -> bool {
    &&& same_letters(d.vendor_id, e.vendor_id)
    &&& same_letters(d.product_id, e.product_id)
    &&& e.is_hub == d.is_hub
    &&& d.descriptor_hash is Some ==> e.descriptor_hash == d.descriptor_hash
    &&& (d.connect_type matches Some(kind) && kind.len() > 0) ==> e.connect_type == d.connect_type
    &&& has_serial(d) ==> e.serial == d.serial
    &&& !has_serial(d) ==> e.port_path == d.port_path
}

/// The rule that is generated for a device matches the devices that stand for it, and no others.
pub proof fn law_generated_rules_are_for_one_device(d: UsbDeviceView, e: UsbDeviceView)
    ensures
        device_matches(generated_rule(d).matcher, e) <==> stands_for(e, d),
        generated_rule(d).action == Action::Allow,
{
    law_a_matcher_asks_no_more_than_its_fields(generated_rule(d).matcher, e);
}

/// The rule that is generated for a device with a serial matches no device with another serial.
/// The rule for one without matches no device at another port.
pub proof fn law_generated_rules_tell_devices_apart(d: UsbDeviceView, e: UsbDeviceView)
    ensures
        d.serial matches Some(serial) && serial.len() > 0 && e.serial != Some(serial)
            ==> !device_matches(generated_rule(d).matcher, e),
        !(d.serial matches Some(serial) && serial.len() > 0) && e.port_path != d.port_path
            ==> !device_matches(generated_rule(d).matcher, e),
        d.descriptor_hash matches Some(hash) && e.descriptor_hash != Some(hash)
            ==> !device_matches(generated_rule(d).matcher, e),
        !same_letters(d.vendor_id, e.vendor_id) ==> !device_matches(generated_rule(d).matcher, e),
        !same_letters(d.product_id, e.product_id) ==> !device_matches(generated_rule(d).matcher, e),
        e.is_hub != d.is_hub ==> !device_matches(generated_rule(d).matcher, e),
{
    law_generated_rules_are_for_one_device(d, e);
}

/// The rule that is generated for a device goes by its product name, or by its ids where it has
/// none.
pub proof fn law_generated_rules_are_named_after_the_device(d: UsbDeviceView)
    ensures
        d.product_name matches Some(name) ==> name.len() > 0 ==> generated_rule(d).name == name,
        !(d.product_name matches Some(name) && name.len() > 0) ==> generated_rule(d).name == "USB "@
            + d.vendor_id + seq![':'] + d.product_id,
{
    reveal_strlit(":");
    assert(":"@ =~= seq![':']);
}

/// A generated policy blocks by default and has one rule for each device, in their order. It
/// allows a device that is not a hub exactly where it stands for one of the devices that the
/// policy was generated from.
pub proof fn law_generated_policies_let_in_what_they_were_made_from(
    devices: Seq<UsbDeviceView>,
    e: UsbDeviceView,
)
    ensures
        generated_policy(devices).default == Action::Block,
        generated_policy(devices).rules.len() == devices.len(),
        forall|i: int|
            0 <= i < devices.len() ==> #[trigger] generated_policy(devices).rules[i]
                == generated_rule(devices[i]),
        !e.is_hub ==> (policy_decision(generated_policy(devices), e).action == Action::Allow
            <==> exists|i: int| 0 <= i < devices.len() && stands_for(e, #[trigger] devices[i])),
        e.is_hub ==> policy_decision(generated_policy(devices), e).action == Action::Allow,
        policy_decision(generated_policy(devices), e).rule is Some <==> exists|i: int|
            0 <= i < devices.len() && stands_for(e, #[trigger] devices[i]),
{
    let p = generated_policy(devices);
    law_decisions_come_from_rules_or_the_default(p, e);
    assert forall|i: int| 0 <= i < devices.len() implies meets(
        e,
        (#[trigger] p.rules[i]).matcher,
    ) == stands_for(e, devices[i]) by {
        law_generated_rules_are_for_one_device(devices[i], e);
        law_a_matcher_asks_no_more_than_its_fields(p.rules[i].matcher, e);
    }
    if exists|i: int| 0 <= i < devices.len() && stands_for(e, #[trigger] devices[i]) {
        let i = choose|i: int| 0 <= i < devices.len() && stands_for(e, #[trigger] devices[i]);
        assert(meets(e, p.rules[i].matcher));
    }
    if policy_decision(p, e).rule is Some {
        let i = choose|i: int|
            0 <= i < p.rules.len() && decides(p, e, i) && policy_decision(p, e).action == (
            #[trigger] p.rules[i]).action && policy_decision(p, e).rule == Some(p.rules[i].name)
                && policy_decision(p, e).reason == "matched rule"@;
        assert(p.rules[i] == generated_rule(devices[i]));
        law_generated_rules_are_for_one_device(devices[i], e);
        assert(stands_for(e, devices[i]));
    }
}

/// A policy that was generated from one device with a serial blocks every device with another
/// serial, unless it is a hub.
pub proof fn law_other_serials_stay_out(d: UsbDeviceView, e: UsbDeviceView)
    requires
        d.serial matches Some(serial) && serial.len() > 0 && e.serial != Some(serial),
        !e.is_hub,
    ensures
        policy_decision(generated_policy(seq![d]), e).action == Action::Block,
        policy_decision(generated_policy(seq![d]), e).rule is None,
        policy_decision(generated_policy(seq![d]), e).reason == "default action"@,
{
    law_generated_policies_let_in_what_they_were_made_from(seq![d], e);
    law_decisions_come_from_rules_or_the_default(generated_policy(seq![d]), e);
}

/// A device that a policy was generated from is allowed by a rule, whatever its authorization, its
/// number and its place in sysfs are by then, and at any port where it has a serial.
pub proof fn law_devices_are_let_in_again(
    devices: Seq<UsbDeviceView>,
    i: int,
    id: u32,
    authorized: Option<bool>,
    sysfs_path: Seq<char>,
    port_path: Seq<char>,
)
    requires
        0 <= i < devices.len(),
        (devices[i].serial matches Some(serial) && serial.len() > 0) || port_path
            == devices[i].port_path,
    ensures
        policy_decision(
            generated_policy(devices),
            UsbDeviceView { id, authorized, sysfs_path, port_path, ..devices[i] },
        ).action == Action::Allow,
        policy_decision(
            generated_policy(devices),
            UsbDeviceView { id, authorized, sysfs_path, port_path, ..devices[i] },
        ).rule is Some,
{
    let e = UsbDeviceView { id, authorized, sysfs_path, port_path, ..devices[i] };
    law_generated_policies_let_in_what_they_were_made_from(devices, e);
    assert(stands_for(e, devices[i]));
    law_decisions_come_from_rules_or_the_default(generated_policy(devices), e);
}

} // verus!
