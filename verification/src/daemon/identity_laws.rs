//! What makes devices the same or different, told by what is read of them, and what follows for
//! the numbers they go by and for their overrides.
use super::identity::{device_key, DeviceKeyView};
use super::laws::{
    fits, law_answers_are_in_force, law_numbers_are_kept, law_numbers_tell_devices_apart,
    law_overrides_stay_with_their_devices, previews, run, unfinished, Reply,
};
use super::override_laws::{concluded, known, law_override_takes_effect};
use super::overrides::{clear_requested, override_requested};
use super::state::{
    consistent, decision_about, device_index, has_id, ids_valid, lemma_numbering, numbering,
    present, present_keys, StateView,
};
use super::steps::StepView;
use crate::device::DeviceStateView;
use crate::policy::{policy_decision, Action, DecisionView};
use crate::sequence::lemma_first_index;
use crate::sysfs::authorization::WriteAttempt;
use crate::sysfs::UsbDeviceView;
use vstd::prelude::*;

verus! {

/// Two devices have one identity exactly where their sysfs path, vendor id, product id and serial
/// are all equal. Whatever else is read of them has no part in it.
pub proof fn law_identity_is_four_facts(a: UsbDeviceView, b: UsbDeviceView)
    ensures
        device_key(a) == device_key(b) <==> a.sysfs_path == b.sysfs_path && a.vendor_id
            == b.vendor_id && a.product_id == b.product_id && a.serial == b.serial,
{
}

/// Of the devices of a scan, two go by one number exactly where their sysfs path, vendor id,
/// product id and serial are all equal. Numbering changes nothing else about a device.
pub proof fn law_scanned_devices_are_told_apart(
    ids: Map<DeviceKeyView, u32>,
    next_id: u32,
    devices: Seq<UsbDeviceView>,
    i: int,
    j: int,
)
    requires
        ids_valid(ids, next_id),
        numbering(ids, next_id, devices) is Some,
        0 <= i < devices.len(),
        0 <= j < devices.len(),
    ensures
        ({
            let n = numbering(ids, next_id, devices)->0.devices;
            &&& n.len() == devices.len()
            &&& n[i].id == n[j].id <==> devices[i].sysfs_path == devices[j].sysfs_path
                && devices[i].vendor_id == devices[j].vendor_id && devices[i].product_id
                == devices[j].product_id && devices[i].serial == devices[j].serial
            &&& n[i] == (UsbDeviceView { id: n[i].id, ..devices[i] })
            &&& n[i].id >= 1
        }),
{
    lemma_numbering(ids, next_id, devices);
    let n = numbering(ids, next_id, devices)->0;
    let a = device_key(devices[i]);
    let b = device_key(devices[j]);
    assert(n.ids.contains_key(a) && n.ids.contains_key(b));
    assert(n.devices[i].id == n.ids[a] && n.devices[j].id == n.ids[b]);
}

/// As long as the daemon runs, whatever happens, a device goes by one number exactly as long as
/// its sysfs path, vendor id, product id and serial stay the same: of a device before some work
/// and one after it, the numbers are equal exactly where these four are.
pub proof fn law_devices_are_followed_by_four_facts(
    s: StateView,
    step: StepView,
    replies: Seq<Reply>,
    i: int,
    j: int,
)
    requires
        consistent(s),
        fits(s, step),
        0 <= i < s.devices.len(),
        0 <= j < run(s, step, replies).0.devices.len(),
    ensures
        ({
            let before = s.devices[i].device;
            let after = run(s, step, replies).0.devices[j].device;
            before.id == after.id <==> before.sysfs_path == after.sysfs_path && before.vendor_id
                == after.vendor_id && before.product_id == after.product_id && before.serial
                == after.serial
        }),
{
    law_numbers_tell_devices_apart(s, step, replies, i, j);
}

/// Devices that are there at the same time go by different numbers, unless their sysfs path,
/// vendor id, product id and serial are all equal.
pub proof fn law_present_devices_are_told_apart(s: StateView, i: int, j: int)
    requires
        consistent(s),
        0 <= i < s.devices.len(),
        0 <= j < s.devices.len(),
    ensures
        ({
            let a = s.devices[i].device;
            let b = s.devices[j].device;
            a.id == b.id <==> a.sysfs_path == b.sysfs_path && a.vendor_id == b.vendor_id
                && a.product_id == b.product_id && a.serial == b.serial
        }),
{
    let a = device_key(s.devices[i].device);
    let b = device_key(s.devices[j].device);
    assert(s.ids.contains_key(a) && s.ids.contains_key(b));
    assert(s.devices[i].device.id == s.ids[a] && s.devices[j].device.id == s.ids[b]);
}

proof fn lemma_first_numbers(devices: Seq<UsbDeviceView>)
    requires
        devices.len() < u32::MAX,
        forall|i: int, j: int|
            0 <= i < j < devices.len() ==> device_key(#[trigger] devices[i]) != device_key(
                #[trigger] devices[j],
            ),
    ensures
        ({
            let n = numbering(Map::empty(), 1, devices);
            &&& n is Some
            &&& n->0.next_id == devices.len() + 1
            &&& n->0.devices.len() == devices.len()
            &&& forall|i: int| 0 <= i < devices.len() ==> (#[trigger] n->0.devices[i]).id == i + 1
            &&& forall|key: DeviceKeyView| #[trigger]
                n->0.ids.contains_key(key) ==> exists|i: int|
                    0 <= i < devices.len() && device_key(#[trigger] devices[i]) == key
        }),
    decreases devices.len(),
{
    if devices.len() > 0 {
        let rest = devices.drop_last();
        assert forall|i: int, j: int| 0 <= i < j < rest.len() implies device_key(
            #[trigger] rest[i],
        ) != device_key(#[trigger] rest[j]) by {
            assert(rest[i] == devices[i] && rest[j] == devices[j]);
        }
        lemma_first_numbers(rest);
        let before = numbering(Map::empty(), 1, rest)->0;
        let own = device_key(devices.last());
        if before.ids.contains_key(own) {
            let i = choose|i: int| 0 <= i < rest.len() && device_key(#[trigger] rest[i]) == own;
            assert(rest[i] == devices[i]);
            assert(device_key(devices[i]) != device_key(devices[devices.len() - 1]));
        }
        let n = numbering(Map::empty(), 1, devices)->0;
        assert forall|i: int| 0 <= i < devices.len() implies (#[trigger] n.devices[i]).id == i
            + 1 by {
            if i < rest.len() {
                assert(n.devices[i] == before.devices[i]);
            }
        }
        assert forall|key: DeviceKeyView| #[trigger] n.ids.contains_key(key) implies exists|i: int|
            0 <= i < devices.len() && device_key(#[trigger] devices[i]) == key by {
            if key == own {
                assert(device_key(devices[devices.len() - 1]) == key);
            } else {
                assert(before.ids.contains_key(key));
                let i = choose|i: int| 0 <= i < rest.len() && device_key(#[trigger] rest[i]) == key;
                assert(devices[i] == rest[i]);
            }
        }
    }
}

/// A daemon that has seen no device yet numbers the first ones in their order, from one on, where
/// no two of them agree in sysfs path, vendor id, product id and serial.
pub proof fn law_first_devices_are_numbered_in_order(devices: Seq<UsbDeviceView>)
    requires
        devices.len() < u32::MAX,
        forall|i: int, j: int|
            0 <= i < j < devices.len() ==> {
                let a = #[trigger] devices[i];
                let b = #[trigger] devices[j];
                a.sysfs_path != b.sysfs_path || a.vendor_id != b.vendor_id || a.product_id
                    != b.product_id || a.serial != b.serial
            },
    ensures
        ({
            let n = numbering(Map::empty(), 1, devices);
            &&& n is Some
            &&& n->0.devices.len() == devices.len()
            &&& forall|i: int|
                0 <= i < devices.len() ==> #[trigger] n->0.devices[i] == (UsbDeviceView {
                    id: (i + 1) as u32,
                    ..devices[i]
                })
        }),
{
    assert forall|i: int, j: int| 0 <= i < j < devices.len() implies device_key(
        #[trigger] devices[i],
    ) != device_key(#[trigger] devices[j]) by {
        law_identity_is_four_facts(devices[i], devices[j]);
    }
    lemma_first_numbers(devices);
    lemma_numbering(Map::empty(), 1, devices);
    let n = numbering(Map::empty(), 1, devices)->0;
    assert forall|i: int| 0 <= i < devices.len() implies #[trigger] n.devices[i] == (UsbDeviceView {
        id: (i + 1) as u32,
        ..devices[i]
    }) by {
        assert(n.devices[i].id == i + 1);
    }
}

// ---- Overrides -------------------------------------------------------------------------------

/// What an override decides: the action that was asked for, as a manual one.
pub proof fn law_overrides_decide_over_the_policy(s: StateView, device: UsbDeviceView)
    ensures
        s.overrides.contains_key(device_key(device)) ==> decision_about(
            s.overrides,
            s.policy,
            device,
        ) == (DecisionView {
            device_id: device.id,
            action: s.overrides[device_key(device)],
            reason: "manual override"@,
            rule: None,
        }),
        !s.overrides.contains_key(device_key(device)) ==> decision_about(
            s.overrides,
            s.policy,
            device,
        ) == policy_decision(s.policy, device),
{
}

/// A number is known exactly where a device that is there goes by it; the device that is meant by
/// it then does.
pub proof fn law_known_numbers(s: StateView, id: u32)
    ensures
        known(s, id) <==> exists|i: int|
            0 <= i < s.devices.len() && (#[trigger] s.devices[i]).device.id == id,
        known(s, id) ==> {
            &&& 0 <= device_index(s.devices, id) < s.devices.len()
            &&& s.devices[device_index(s.devices, id)].device.id == id
        },
{
    lemma_first_index(s.devices, has_id(id));
    if exists|i: int| 0 <= i < s.devices.len() && (#[trigger] s.devices[i]).device.id == id {
        let i = choose|i: int|
            0 <= i < s.devices.len() && (#[trigger] s.devices[i]).device.id == id;
        assert(has_id(id)(s.devices[i]));
    }
}

proof fn lemma_redecided(s: StateView, after: StateView, i: int, state: DeviceStateView)
    requires
        consistent(s),
        0 <= i < s.devices.len(),
        after.devices == s.devices.update(i, state),
        device_key(state.device) == device_key(s.devices[i].device),
        state.device.id == s.devices[i].device.id,
        after.ids == s.ids,
        after.next_id == s.next_id,
        forall|key: DeviceKeyView| #[trigger]
            after.overrides.contains_key(key) ==> s.overrides.contains_key(key) || key
                == device_key(s.devices[i].device),
    ensures
        consistent(after),
{
    assert forall|key: DeviceKeyView| #[trigger] after.overrides.contains_key(key) implies present(
        after.devices,
        key,
    ) by {
        let j = if key == device_key(s.devices[i].device) {
            i
        } else {
            assert(present(s.devices, key));
            choose|j: int|
                0 <= j < s.devices.len() && device_key((#[trigger] s.devices[j]).device) == key
        };
        assert(device_key(after.devices[j].device) == key);
    }
    assert forall|j: int| 0 <= j < after.devices.len() implies {
        &&& after.ids.contains_key(device_key((#[trigger] after.devices[j]).device))
        &&& after.devices[j].device.id == after.ids[device_key(after.devices[j].device)]
    } by {
        assert(s.ids.contains_key(device_key(s.devices[j].device)));
    }
}

proof fn lemma_overridden(s: StateView, id: u32, action: Action)
    requires
        consistent(s),
        known(s, id),
    ensures
        consistent(concluded(override_requested(s, id, action), WriteAttempt::Written).0),
{
    let i = device_index(s.devices, id);
    let after = concluded(override_requested(s, id, action), WriteAttempt::Written).0;
    lemma_first_index(s.devices, has_id(id));
    law_override_takes_effect(s, id, action);
    lemma_redecided(s, after, i, after.devices[i]);
}

/// An override is of one device. After the device with a number was overridden, and some further
/// work ended well, every device that agrees with it in sysfs path, vendor id, product id and
/// serial has the action that was asked for; every other device that was not overridden before
/// has what the policy decides.
pub proof fn law_an_override_is_of_one_device(
    s: StateView,
    id: u32,
    action: Action,
    step: StepView,
    replies: Seq<Reply>,
    k: int,
)
    requires
        consistent(s),
        known(s, id),
        ({
            let overridden = concluded(
                override_requested(s, id, action),
                WriteAttempt::Written,
            ).0;
            let end = run(overridden, step, replies);
            &&& fits(overridden, step)
            &&& unfinished(step)
            &&& !previews(step)
            &&& end.1 matches StepView::Done(Ok(_))
            &&& 0 <= k < end.0.devices.len()
        }),
    ensures
        ({
            let target = s.devices[device_index(s.devices, id)].device;
            let overridden = concluded(
                override_requested(s, id, action),
                WriteAttempt::Written,
            ).0;
            let end = run(overridden, step, replies).0;
            let device = end.devices[k].device;
            let decision = end.devices[k].decision;
            let same = device.sysfs_path == target.sysfs_path && device.vendor_id
                == target.vendor_id && device.product_id == target.product_id && device.serial
                == target.serial;
            &&& same ==> decision == (DecisionView {
                device_id: device.id,
                action,
                reason: "manual override"@,
                rule: None,
            })
            &&& same ==> device.id == target.id
            &&& !same && !s.overrides.contains_key(device_key(device)) ==> decision
                == policy_decision(end.policy, device)
            &&& !same && s.overrides.contains_key(device_key(device)) ==> decision.action
                == s.overrides[device_key(device)]
        }),
{
    let i = device_index(s.devices, id);
    let target = s.devices[i].device;
    law_override_takes_effect(s, id, action);
    lemma_overridden(s, id, action);
    let overridden = concluded(override_requested(s, id, action), WriteAttempt::Written).0;
    let end = run(overridden, step, replies).0;
    law_answers_are_in_force(overridden, step, replies);
    law_overrides_stay_with_their_devices(overridden, step, replies);
    law_numbers_are_kept(overridden, step, replies);
    let device = end.devices[k].device;
    assert(present(end.devices, device_key(device)));
    assert(present_keys(end.devices).contains(device_key(device)));
    assert(end.devices[k].decision == decision_about(end.overrides, end.policy, device));
    lemma_first_index(s.devices, has_id(id));
    if device_key(device) == device_key(target) {
        assert(overridden.overrides.contains_key(device_key(device)));
        assert(s.ids.contains_key(device_key(target)));
        assert(overridden.ids == s.ids);
        assert(s.ids.dom().contains(device_key(target)));
        assert(overridden.ids.submap_of(end.ids));
        assert(end.ids[device_key(target)] == s.ids[device_key(target)]);
    }
}

proof fn lemma_cleared(s: StateView, id: u32)
    requires
        consistent(s),
        known(s, id),
    ensures
        ({
            let cleared = concluded(clear_requested(s, id), WriteAttempt::Written).0;
            &&& consistent(cleared)
            &&& cleared.overrides == s.overrides.remove(
                device_key(s.devices[device_index(s.devices, id)].device),
            )
            &&& cleared.policy == s.policy
        }),
{
    let i = device_index(s.devices, id);
    let cleared = concluded(clear_requested(s, id), WriteAttempt::Written).0;
    lemma_first_index(s.devices, has_id(id));
    let decision = policy_decision(s.policy, s.devices[i].device);
    assert(cleared.overrides =~= s.overrides.remove(device_key(s.devices[i].device)));
    lemma_redecided(s, cleared, i, cleared.devices[i]);
}

/// After the override of a device was cleared, and some further work ended well, every device that
/// agrees with it in sysfs path, vendor id, product id and serial is left to the policy, and no
/// other device has lost an override.
pub proof fn law_clearing_is_of_one_device(
    s: StateView,
    id: u32,
    step: StepView,
    replies: Seq<Reply>,
    k: int,
)
    requires
        consistent(s),
        known(s, id),
        ({
            let cleared = concluded(clear_requested(s, id), WriteAttempt::Written).0;
            let end = run(cleared, step, replies);
            &&& fits(cleared, step)
            &&& unfinished(step)
            &&& !previews(step)
            &&& end.1 matches StepView::Done(Ok(_))
            &&& 0 <= k < end.0.devices.len()
        }),
    ensures
        ({
            let target = s.devices[device_index(s.devices, id)].device;
            let cleared = concluded(clear_requested(s, id), WriteAttempt::Written).0;
            let end = run(cleared, step, replies).0;
            let device = end.devices[k].device;
            let decision = end.devices[k].decision;
            let same = device.sysfs_path == target.sysfs_path && device.vendor_id
                == target.vendor_id && device.product_id == target.product_id && device.serial
                == target.serial;
            &&& same ==> decision == policy_decision(end.policy, device)
            &&& !same && s.overrides.contains_key(device_key(device)) ==> decision == (
            DecisionView {
                device_id: device.id,
                action: s.overrides[device_key(device)],
                reason: "manual override"@,
                rule: None,
            })
        }),
{
    let target = s.devices[device_index(s.devices, id)].device;
    lemma_cleared(s, id);
    let cleared = concluded(clear_requested(s, id), WriteAttempt::Written).0;
    let end = run(cleared, step, replies).0;
    law_answers_are_in_force(cleared, step, replies);
    law_overrides_stay_with_their_devices(cleared, step, replies);
    let device = end.devices[k].device;
    assert(present(end.devices, device_key(device)));
    assert(present_keys(end.devices).contains(device_key(device)));
    assert(end.devices[k].decision == decision_about(end.overrides, end.policy, device));
}

} // verus!
