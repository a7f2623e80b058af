//! What holds of manual overrides.
use super::changes::distinct_keys;
use super::identity::device_key;
use super::laws::decisions_in_force;
use super::overrides::{clear_requested, override_attempted, override_requested, OverrideStepView};
use super::state::{
    consistent, decision_about, device_index, has_id, manual_decision, recorded, redecided,
    unknown_id, StateView,
};
use super::steps::dry_run;
use crate::device::DeviceStateView;
use crate::policy::laws::law_decision_ignores_authorization;
use crate::policy::{policy_decision, Action, DecisionView};
use crate::sequence::{lemma_first_index, lemma_first_index_is};
use crate::sysfs::authorization::{attempt_outcome, authorized_write, WriteAttempt};
use vstd::prelude::*;

verus! {

/// A device goes by the number.
pub open spec fn known(s: StateView, id: u32) -> bool {
    device_index(s.devices, id) < s.devices.len()
}

/// How an override, or the clearing of one, ends with an attempt to write the authorization. No
/// attempt is made where nothing is enforced.
pub open spec fn concluded(start: (StateView, OverrideStepView), attempt: WriteAttempt) -> (
    StateView,
    OverrideStepView,
) {
    match start.1 {
        OverrideStepView::Authorize(o) => override_attempted(start.0, o, attempt),
        OverrideStepView::Done(_) => start,
    }
}

proof fn lemma_recorded(s: StateView, id: u32, decision: DecisionView)
    requires
        known(s, id),
    ensures
        ({
            let i = device_index(s.devices, id);
            let after = recorded(s, id, decision);
            &&& 0 <= i < s.devices.len()
            &&& s.devices[i].device.id == id
            &&& after.devices == s.devices.update(
                i,
                redecided(s.devices[i], decision, dry_run(s)),
            )
            &&& device_index(after.devices, id) == i
        }),
{
    let i = device_index(s.devices, id);
    let after = recorded(s, id, decision);
    lemma_first_index(s.devices, has_id(id));
    assert forall|j: int| 0 <= j < i implies !has_id(id)(#[trigger] after.devices[j]) by {
        assert(!has_id(id)(s.devices[j]));
    }
    lemma_first_index_is(after.devices, has_id(id), i);
}

/// An override that is carried out decides about the device from then on, and about no other. Its
/// answer is that decision.
pub proof fn law_override_takes_effect(s: StateView, id: u32, action: Action)
    requires
        consistent(s),
        known(s, id),
    ensures
        ({
            let i = device_index(s.devices, id);
            let device = s.devices[i].device;
            let end = concluded(override_requested(s, id, action), WriteAttempt::Written);
            &&& end.1 == OverrideStepView::Done(Ok(manual_decision(id, action)))
            &&& end.0.overrides == s.overrides.insert(device_key(device), action)
            &&& end.0.devices == s.devices.update(
                i,
                redecided(s.devices[i], manual_decision(id, action), dry_run(s)),
            )
            &&& end.0.policy == s.policy
            &&& end.0.ids == s.ids
            &&& end.0.config == s.config
        }),
{
    lemma_recorded(s, id, manual_decision(id, action));
}

/// Overriding a device and clearing the override again leaves the device to the policy, and
/// everything else as it was.
pub proof fn law_clearing_undoes_an_override(s: StateView, id: u32, action: Action)
    requires
        consistent(s),
        known(s, id),
    ensures
        ({
            let i = device_index(s.devices, id);
            let device = s.devices[i].device;
            let decision = policy_decision(s.policy, device);
            let overridden = concluded(
                override_requested(s, id, action),
                WriteAttempt::Written,
            ).0;
            let end = concluded(clear_requested(overridden, id), WriteAttempt::Written);
            &&& end.1 == OverrideStepView::Done(Ok(decision))
            &&& end.0.overrides == s.overrides.remove(device_key(device))
            &&& end.0.devices == s.devices.update(
                i,
                redecided(s.devices[i], decision, dry_run(s)),
            )
            &&& end.0.policy == s.policy
            &&& end.0.ids == s.ids
            &&& end.0.config == s.config
        }),
{
    let i = device_index(s.devices, id);
    let device = s.devices[i].device;
    law_override_takes_effect(s, id, action);
    lemma_recorded(s, id, manual_decision(id, action));
    let overridden = concluded(override_requested(s, id, action), WriteAttempt::Written).0;
    let changed = overridden.devices[i].device;
    law_decision_ignores_authorization(
        s.policy,
        device,
        device.id,
        changed.authorized,
        device.sysfs_path,
    );
    lemma_recorded(overridden, id, policy_decision(s.policy, device));
    let end = concluded(clear_requested(overridden, id), WriteAttempt::Written);
    assert(end.0.overrides =~= s.overrides.remove(device_key(device)));
    assert(end.0.devices =~= s.devices.update(
        i,
        redecided(s.devices[i], policy_decision(s.policy, device), dry_run(s)),
    ));
}

/// An override is written to the device at once, even where the device was last seen to have the
/// authorization already. So is the policy's decision when an override is cleared.
pub proof fn law_overrides_are_written_at_once(s: StateView, id: u32, action: Action)
    requires
        known(s, id),
        !dry_run(s),
    ensures
        ({
            let device = s.devices[device_index(s.devices, id)].device;
            &&& override_requested(s, id, action).1 matches OverrideStepView::Authorize(o)
                && o.device == device && o.decision.action == action
            &&& clear_requested(s, id).1 matches OverrideStepView::Authorize(o) && o.device
                == device && o.decision == policy_decision(s.policy, device)
        }),
{
}

/// A request about a number that no device goes by changes nothing and is answered with that.
pub proof fn law_unknown_devices_change_nothing(s: StateView, id: u32, action: Action)
    requires
        !known(s, id),
    ensures
        override_requested(s, id, action) == (s, OverrideStepView::Done(Err(unknown_id(id)))),
        clear_requested(s, id) == (s, OverrideStepView::Done(Err(unknown_id(id)))),
{
}

/// An override that cannot be carried out, because the device is gone or cannot be written to,
/// changes nothing.
pub proof fn law_failed_override_changes_nothing(
    s: StateView,
    id: u32,
    action: Action,
    attempt: WriteAttempt,
)
    requires
        !dry_run(s),
        !(attempt is Written),
    ensures
        ({
            let end = concluded(override_requested(s, id, action), attempt);
            &&& end.0 == s
            &&& end.1 matches OverrideStepView::Done(Err(_))
        }),
{
}

/// An override is forgotten when it is cleared, even where the device is gone by then.
pub proof fn law_clearing_forgets_the_override(s: StateView, id: u32, attempt: WriteAttempt)
    requires
        consistent(s),
        known(s, id),
        attempt_outcome(
            authorized_write(
                s.devices[device_index(s.devices, id)].device,
                policy_decision(
                    s.policy,
                    s.devices[device_index(s.devices, id)].device,
                ).action,
            ).path,
            attempt,
        ) is Ok,
    ensures
        concluded(clear_requested(s, id), attempt).0.overrides == s.overrides.remove(
            device_key(s.devices[device_index(s.devices, id)].device),
        ),
{
    let device = s.devices[device_index(s.devices, id)].device;
    lemma_recorded(s, id, policy_decision(s.policy, device));
}

/// After an override, however it ends, what is recorded about each device is what its override
/// says, where it has one, or else what the policy says. So it is after an override was cleared,
/// unless the device was gone by then.
pub proof fn law_overrides_keep_decisions_in_force(
    s: StateView,
    id: u32,
    action: Action,
    attempt: WriteAttempt,
)
    requires
        consistent(s),
        decisions_in_force(s),
        distinct_keys(s.devices),
    ensures
        decisions_in_force(concluded(override_requested(s, id, action), attempt).0),
        attempt is Written ==> decisions_in_force(concluded(clear_requested(s, id), attempt).0),
{
    if known(s, id) {
        let i = device_index(s.devices, id);
        let device = s.devices[i].device;
        let manual = manual_decision(id, action);
        let policy = policy_decision(s.policy, device);
        lemma_recorded(s, id, manual);
        lemma_recorded(s, id, policy);
        let key = device_key(device);
        let overridden = concluded(override_requested(s, id, action), attempt).0;
        let cleared = concluded(clear_requested(s, id), attempt).0;
        if overridden.overrides == s.overrides.insert(key, action) && overridden.devices
            == s.devices.update(i, redecided(s.devices[i], manual, dry_run(s))) {
            assert forall|j: int| 0 <= j < overridden.devices.len() implies (
            #[trigger] overridden.devices[j]).decision == decision_about(
                overridden.overrides,
                overridden.policy,
                overridden.devices[j].device,
            ) by {
                lemma_keys_differ(s.devices, i, j);
                assert(s.devices[j].decision == decision_about(
                    s.overrides,
                    s.policy,
                    s.devices[j].device,
                ));
            }
        }
        if attempt is Written {
            assert forall|j: int| 0 <= j < cleared.devices.len() implies (
            #[trigger] cleared.devices[j]).decision == decision_about(
                cleared.overrides,
                cleared.policy,
                cleared.devices[j].device,
            ) by {
                lemma_keys_differ(s.devices, i, j);
                assert(s.devices[j].decision == decision_about(
                    s.overrides,
                    s.policy,
                    s.devices[j].device,
                ));
                if j == i {
                    law_decision_ignores_authorization(
                        s.policy,
                        device,
                        device.id,
                        cleared.devices[j].device.authorized,
                        device.sysfs_path,
                    );
                }
            }
        }
    }
}

proof fn lemma_keys_differ(devices: Seq<DeviceStateView>, i: int, j: int)
    requires
        distinct_keys(devices),
        0 <= i < devices.len(),
        0 <= j < devices.len(),
    ensures
        i != j ==> device_key(devices[i].device) != device_key(devices[j].device),
{
}

} // verus!
