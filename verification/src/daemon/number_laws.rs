//! When the numbers that devices go by run out.
use super::identity::{device_key, DeviceKeyView};
use super::state::{exhausted, numbering, snapshot_of, SnapshotView, StateView};
use crate::error::ErrorView;
use crate::policy::PolicyView;
use crate::sysfs::UsbDeviceView;
use vstd::prelude::*;

verus! {

/// The identities of the devices that have no number yet.
pub open spec fn new_identities(
    ids: Map<DeviceKeyView, u32>,
    devices: Seq<UsbDeviceView>,
) -> Set<DeviceKeyView> {
    devices.map_values(|d: UsbDeviceView| device_key(d)).to_set().difference(ids.dom())
}

proof fn lemma_new_identities(ids: Map<DeviceKeyView, u32>, devices: Seq<UsbDeviceView>)
    requires
        devices.len() > 0,
    ensures
        new_identities(ids, devices) == (if ids.contains_key(device_key(devices.last())) {
            new_identities(ids, devices.drop_last())
        } else {
            new_identities(ids, devices.drop_last()).insert(device_key(devices.last()))
        }),
{
    let f = |d: UsbDeviceView| device_key(d);
    let rest = devices.drop_last();
    assert(devices.map_values(f) =~= rest.map_values(f).push(device_key(devices.last())));
    rest.map_values(f).lemma_push_to_set_commute(device_key(devices.last()));
    let own = device_key(devices.last());
    let before = new_identities(ids, rest);
    if ids.contains_key(own) {
        assert(new_identities(ids, devices) =~= before);
    } else {
        assert(new_identities(ids, devices) =~= before.insert(own));
    }
}

proof fn lemma_numbers_used(
    ids: Map<DeviceKeyView, u32>,
    next_id: u32,
    devices: Seq<UsbDeviceView>,
)
    ensures
        ({
            let fresh = new_identities(ids, devices);
            &&& fresh.finite()
            &&& numbering(ids, next_id, devices) is Some <==> next_id + fresh.len() <= u32::MAX
            &&& numbering(ids, next_id, devices) matches Some(n) ==> {
                &&& n.next_id == next_id + fresh.len()
                &&& n.ids.dom() == ids.dom().union(fresh)
            }
        }),
    decreases devices.len(),
{
    let fresh = new_identities(ids, devices);
    if devices.len() == 0 {
        assert(fresh =~= Set::empty());
        assert(ids.dom().union(fresh) =~= ids.dom());
    } else {
        let rest = devices.drop_last();
        let before = new_identities(ids, rest);
        let own = device_key(devices.last());
        lemma_numbers_used(ids, next_id, rest);
        lemma_new_identities(ids, devices);
        if before.contains(own) {
            assert(before.insert(own) =~= before);
        }
        if let Some(n) = numbering(ids, next_id, rest) {
            assert(n.ids.contains_key(own) <==> ids.contains_key(own) || before.contains(own));
            assert(n.ids.insert(own, n.next_id).dom() =~= ids.dom().union(before.insert(own)));
        }
    }
}

/// Numbers run out exactly where the devices that have none yet are more than are left: the next
/// number and the count of new identities together exceed the largest number. Where they do not,
/// each new identity takes one.
pub proof fn law_numbers_run_out(s: StateView, policy: PolicyView, devices: Seq<UsbDeviceView>)
    ensures
        ({
            let fresh = new_identities(s.ids, devices);
            &&& numbering(s.ids, s.next_id, devices) is None <==> s.next_id + fresh.len()
                > u32::MAX
            &&& numbering(s.ids, s.next_id, devices) matches Some(n) ==> n.next_id == s.next_id
                + fresh.len()
            &&& snapshot_of(s, policy, devices) == Err::<SnapshotView, ErrorView>(exhausted())
                <==> s.next_id + fresh.len() > u32::MAX
            &&& snapshot_of(s, policy, devices) is Ok <==> s.next_id + fresh.len() <= u32::MAX
        }),
{
    lemma_numbers_used(s.ids, s.next_id, devices);
}

} // verus!
