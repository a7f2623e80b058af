//! What the daemon knows: its configuration, the policy in force, the devices and what was
//! decided about each, the manual overrides, and the numbers that devices go by.
use super::changes::{change_events, collect_device_change_events};
use super::identity::{device_key, DeviceKey, DeviceKeyView};
use super::journal::{
    changes_entries, controller_entries, note, note_changes, note_controllers, note_records,
    preview_entry, record_entries, JournalEntry, JournalEntryView, LogRecord,
};
use crate::config::{Config, ConfigView, Mode};
use crate::device::{DeviceState, DeviceStateView};
use crate::error::{Error, ErrorView};
use crate::policy::{policy_decision, Action, Decision, DecisionView, Policy, PolicyView};
use crate::sequence::{first_index, lemma_first_index_is};
use crate::sysfs::authorization::authorizes;
use crate::sysfs::controllers::{
    ControllerAuthorizationState, ControllerAuthorizationStateView, ControllerAuthorizationUpdate,
};
use crate::sysfs::{UsbDevice, UsbDeviceView};
use crate::table::{keys_of, Table};
use crate::text::{decimal, decimal_string};
use vstd::prelude::*;

verus! {

#[derive(Debug)]
pub struct State {
    config: Config,
    policy: Policy,
    devices: Vec<DeviceState>,
    overrides: Table<DeviceKey, Action>,
    ids_by_key: Table<DeviceKey, u32>,
    next_id: u32,
    controller_restore: Vec<ControllerAuthorizationState>,
    journal: Vec<JournalEntry>,
}

#[verifier::ext_equal]
pub struct StateView {
    pub config: ConfigView,
    pub policy: PolicyView,
    pub devices: Seq<DeviceStateView>,
    pub overrides: Map<DeviceKeyView, Action>,
    pub ids: Map<DeviceKeyView, u32>,
    pub next_id: u32,
    pub restore: Seq<ControllerAuthorizationStateView>,
    pub journal: Seq<JournalEntryView>,
}

impl View for State {
    type V = StateView;

    closed spec fn view(&self) -> StateView {
        StateView {
            config: self.config@,
            policy: self.policy@,
            devices: self.devices.deep_view(),
            overrides: self.overrides@,
            ids: self.ids_by_key@,
            next_id: self.next_id,
            restore: self.controller_restore.deep_view(),
            journal: self.journal.deep_view(),
        }
    }
}

/// The devices as a scan found them, numbered and decided about, before any of that is in force.
#[derive(Debug)]
pub struct Snapshot {
    devices: Vec<DeviceState>,
    ids_by_key: Table<DeviceKey, u32>,
    next_id: u32,
}

#[verifier::ext_equal]
pub struct SnapshotView {
    pub devices: Seq<DeviceStateView>,
    pub ids: Map<DeviceKeyView, u32>,
    pub next_id: u32,
}

impl View for Snapshot {
    type V = SnapshotView;

    closed spec fn view(&self) -> SnapshotView {
        SnapshotView {
            devices: self.devices.deep_view(),
            ids: self.ids_by_key@,
            next_id: self.next_id,
        }
    }
}

// ---- What always holds -----------------------------------------------------------------------

/// No number was given twice, and the next one is still free.
pub open spec fn ids_valid(ids: Map<DeviceKeyView, u32>, next_id: u32) -> bool {
    &&& 1 <= next_id
    &&& forall|k: DeviceKeyView| #[trigger]
        ids.contains_key(k) ==> 1 <= ids[k] < next_id
    &&& forall|a: DeviceKeyView, b: DeviceKeyView|
        #![trigger ids.contains_key(a), ids.contains_key(b)]
        ids.contains_key(a) && ids.contains_key(b) && ids[a] == ids[b] ==> a == b
}

/// Every device goes by the number of its identity.
pub open spec fn numbered(devices: Seq<DeviceStateView>, ids: Map<DeviceKeyView, u32>) -> bool {
    forall|i: int|
        0 <= i < devices.len() ==> {
            &&& ids.contains_key(device_key((#[trigger] devices[i]).device))
            &&& devices[i].device.id == ids[device_key(devices[i].device)]
        }
}

/// What a daemon knows that has not looked at any device yet.
pub open spec fn new_state(config: ConfigView, policy: PolicyView) -> StateView {
    StateView {
        config,
        policy,
        devices: Seq::empty(),
        overrides: Map::empty(),
        ids: Map::empty(),
        next_id: 1,
        restore: Seq::empty(),
        journal: Seq::empty(),
    }
}

/// A device with this identity is there.
pub open spec fn present(devices: Seq<DeviceStateView>, key: DeviceKeyView) -> bool {
    exists|i: int| 0 <= i < devices.len() && device_key((#[trigger] devices[i]).device) == key
}

/// The identities of the devices.
pub open spec fn present_keys(devices: Seq<DeviceStateView>) -> Set<DeviceKeyView> {
    Set::new(|key: DeviceKeyView| present(devices, key))
}

/// Numbers are unique, devices go by them, and only devices that are there are overridden.
pub open spec fn consistent(s: StateView) -> bool {
    &&& ids_valid(s.ids, s.next_id)
    &&& numbered(s.devices, s.ids)
    &&& forall|key: DeviceKeyView| #[trigger]
        s.overrides.contains_key(key) ==> present(s.devices, key)
}

// ---- Decisions -------------------------------------------------------------------------------

/// The decision of a manual override.
pub open spec fn manual_decision(device_id: u32, action: Action) -> DecisionView {
    DecisionView { device_id, action, reason: "manual override"@, rule: None }
}

/// The decision about a device: that of its override, where it has one, or else the policy's.
pub open spec fn decision_about(
    overrides: Map<DeviceKeyView, Action>,
    policy: PolicyView,
    device: UsbDeviceView,
) -> DecisionView {
    if overrides.contains_key(device_key(device)) {
        manual_decision(device.id, overrides[device_key(device)])
    } else {
        policy_decision(policy, device)
    }
}

/// The devices with the decisions about them.
pub open spec fn decided(
    overrides: Map<DeviceKeyView, Action>,
    policy: PolicyView,
    devices: Seq<UsbDeviceView>,
) -> Seq<DeviceStateView> {
    Seq::new(
        devices.len(),
        |i: int|
            DeviceStateView {
                device: devices[i],
                decision: decision_about(overrides, policy, devices[i]),
            },
    )
}

/// The decisions about some devices.
pub open spec fn decisions_of(devices: Seq<DeviceStateView>) -> Seq<DecisionView> {
    Seq::new(devices.len(), |i: int| devices[i].decision)
}

/// Devices with the numbers that they go by, and the numbers that are given then.
#[verifier::ext_equal]
pub struct NumberingView {
    pub devices: Seq<UsbDeviceView>,
    pub ids: Map<DeviceKeyView, u32>,
    pub next_id: u32,
}

/// Numbers devices. One that was seen before keeps its number, a new one gets the next. There is
/// no numbering once the numbers are used up.
pub open spec fn numbering(
    ids: Map<DeviceKeyView, u32>,
    next_id: u32,
    devices: Seq<UsbDeviceView>,
) -> Option<NumberingView>
    decreases devices.len(),
{
    if devices.len() == 0 {
        Some(NumberingView { devices: Seq::empty(), ids, next_id })
    } else {
        match numbering(ids, next_id, devices.drop_last()) {
            None => None,
            Some(before) => {
                let device = devices.last();
                let key = device_key(device);
                if before.ids.contains_key(key) {
                    Some(
                        NumberingView {
                            devices: before.devices.push(
                                UsbDeviceView { id: before.ids[key], ..device },
                            ),
                            ..before
                        },
                    )
                } else if before.next_id == u32::MAX {
                    None
                } else {
                    Some(
                        NumberingView {
                            devices: before.devices.push(
                                UsbDeviceView { id: before.next_id, ..device },
                            ),
                            ids: before.ids.insert(key, before.next_id),
                            next_id: (before.next_id + 1) as u32,
                        },
                    )
                }
            },
        }
    }
}

/// The error of numbers that are used up.
pub open spec fn exhausted() -> ErrorView {
    ErrorView::Config("daemon device id counter exhausted"@)
}

/// What a policy would make of the devices.
pub open spec fn snapshot_of(s: StateView, policy: PolicyView, devices: Seq<UsbDeviceView>) -> Result<
    SnapshotView,
    ErrorView,
> {
    match numbering(s.ids, s.next_id, devices) {
        None => Err(exhausted()),
        Some(n) => Ok(
            SnapshotView {
                devices: decided(s.overrides, policy, n.devices),
                ids: n.ids,
                next_id: n.next_id,
            },
        ),
    }
}

/// Numbering keeps the numbers that were given, gives no number twice, and gives every device the
/// number of its identity.
pub proof fn lemma_numbering(
    ids: Map<DeviceKeyView, u32>,
    next_id: u32,
    devices: Seq<UsbDeviceView>,
)
    requires
        ids_valid(ids, next_id),
        numbering(ids, next_id, devices) is Some,
    ensures
        ({
            let n = numbering(ids, next_id, devices)->0;
            &&& ids_valid(n.ids, n.next_id)
            &&& ids.submap_of(n.ids)
            &&& next_id <= n.next_id
            &&& n.devices.len() == devices.len()
            &&& forall|i: int|
                0 <= i < devices.len() ==> n.ids.contains_key(device_key(#[trigger] devices[i]))
            &&& forall|i: int|
                0 <= i < devices.len() ==> #[trigger] n.devices[i] == (UsbDeviceView {
                    id: n.ids[device_key(devices[i])],
                    ..devices[i]
                })
        }),
    decreases devices.len(),
{
    if devices.len() > 0 {
        lemma_numbering(ids, next_id, devices.drop_last());
        let before = numbering(ids, next_id, devices.drop_last())->0;
        let n = numbering(ids, next_id, devices)->0;
        let last = devices.len() - 1;
        assert forall|a: DeviceKeyView, b: DeviceKeyView|
            #![trigger n.ids.contains_key(a), n.ids.contains_key(b)]
            n.ids.contains_key(a) && n.ids.contains_key(b) && n.ids[a] == n.ids[b] implies a
            == b by {
            let key = device_key(devices.last());
            assert(a != key || n.ids == before.ids ==> before.ids.contains_key(a));
            assert(b != key || n.ids == before.ids ==> before.ids.contains_key(b));
        }
        assert(forall|k: DeviceKeyView| #[trigger]
            n.ids.contains_key(k) ==> before.ids.contains_key(k) || k == device_key(
                devices.last(),
            ));
        assert(before.ids.submap_of(n.ids));
        assert(ids.submap_of(n.ids));
        assert forall|i: int| 0 <= i < devices.len() implies n.ids.contains_key(
            device_key(#[trigger] devices[i]),
        ) by {
            if i < last {
                assert(devices.drop_last()[i] == devices[i]);
            }
        }
        assert forall|i: int| 0 <= i < devices.len() implies #[trigger] n.devices[i] == (
        UsbDeviceView { id: n.ids[device_key(devices[i])], ..devices[i] }) by {
            if i < last {
                assert(devices.drop_last()[i] == devices[i]);
                assert(before.devices[i] == n.devices[i]);
                assert(before.ids.contains_key(device_key(devices[i])));
            }
        }
    }
}

/// A failure to number some devices is a failure to number more of them.
proof fn lemma_numbering_fails(
    ids: Map<DeviceKeyView, u32>,
    next_id: u32,
    devices: Seq<UsbDeviceView>,
    n: int,
)
    requires
        0 <= n <= devices.len(),
        numbering(ids, next_id, devices.take(n)) is None,
    ensures
        numbering(ids, next_id, devices) is None,
    decreases devices.len() - n,
{
    if n == devices.len() {
        assert(devices.take(n) =~= devices);
    } else {
        assert(devices.take(n + 1).drop_last() =~= devices.take(n));
        lemma_numbering_fails(ids, next_id, devices, n + 1);
    }
}

// ---- Changes of the state --------------------------------------------------------------------

/// The state with more to log.
pub open spec fn with_entries(s: StateView, entries: Seq<JournalEntryView>) -> StateView {
    StateView { journal: s.journal + entries, ..s }
}

/// The state after a snapshot has come into force. Overrides of devices that are gone go too.
pub open spec fn committed(s: StateView, snapshot: SnapshotView) -> StateView {
    StateView {
        devices: snapshot.devices,
        overrides: s.overrides.restrict(present_keys(snapshot.devices)),
        ids: snapshot.ids,
        next_id: snapshot.next_id,
        journal: s.journal + changes_entries(change_events(s.devices, snapshot.devices)),
        ..s
    }
}

/// The predicate that a device goes by a number.
pub open spec fn has_id(id: u32) -> spec_fn(DeviceStateView) -> bool {
    |state: DeviceStateView| state.device.id == id
}

/// The position of the first device with a number, or the number of devices.
pub open spec fn device_index(devices: Seq<DeviceStateView>, id: u32) -> int {
    first_index(devices, has_id(id))
}

/// The error of a number that no device goes by.
pub open spec fn unknown_id(id: u32) -> ErrorView {
    ErrorView::Protocol("unknown device id "@ + decimal(id as nat))
}

/// A device about which something else was decided; it has the authorization that goes with it
/// unless nothing is enforced.
pub open spec fn redecided(
    state: DeviceStateView,
    decision: DecisionView,
    dry_run: bool,
) -> DeviceStateView {
    DeviceStateView {
        device: UsbDeviceView {
            authorized: if dry_run {
                state.device.authorized
            } else {
                Some(authorizes(decision.action))
            },
            ..state.device
        },
        decision,
    }
}

/// The state after a decision about the device with a number was recorded.
pub open spec fn recorded(s: StateView, id: u32, decision: DecisionView) -> StateView {
    let i = device_index(s.devices, id);
    if i < s.devices.len() {
        StateView {
            devices: s.devices.update(
                i,
                redecided(s.devices[i], decision, s.config.mode == Mode::DryRun),
            ),
            ..s
        }
    } else {
        s
    }
}

/// The entries of actions that would be carried out.
pub open spec fn preview_entries(devices: Seq<DeviceStateView>) -> Seq<JournalEntryView> {
    Seq::new(
        devices.len(),
        |i: int| preview_entry(devices[i].device, devices[i].decision.action),
    )
}

impl Snapshot {
    pub closed spec fn wf(&self) -> bool {
        &&& self.ids_by_key.wf()
        &&& ids_valid(self@.ids, self@.next_id)
        &&& numbered(self@.devices, self@.ids)
    }

    pub fn count(&self) -> (r: usize)
        ensures
            r == self@.devices.len(),
    {
        self.devices.len()
    }

    pub fn device(&self, i: usize) -> (r: &DeviceState)
        requires
            i < self@.devices.len(),
        ensures
            r@ == self@.devices[i as int],
    {
        assert(self@.devices[i as int] == self.devices@[i as int]@);
        &self.devices[i]
    }

    /// Records that a device has the authorization that was decided.
    pub fn set_authorized(&mut self, i: usize)
        requires
            old(self).wf(),
            i < old(self)@.devices.len(),
        ensures
            final(self).wf(),
            final(self)@ == (SnapshotView {
                devices: old(self)@.devices.update(
                    i as int,
                    redecided(
                        old(self)@.devices[i as int],
                        old(self)@.devices[i as int].decision,
                        false,
                    ),
                ),
                ..old(self)@
            }),
    {
        let ghost before = self.devices.deep_view();
        let mut state = self.devices[i].clone();
        assert(before[i as int] == self.devices@[i as int]@);
        state.device.authorized = Some(state.decision.action.authorized());
        let ghost changed = state@;
        self.devices.set(i, state);
        proof {
            assert(self.devices.deep_view() =~= before.update(i as int, changed));
            assert forall|j: int| 0 <= j < self@.devices.len() implies {
                &&& self@.ids.contains_key(device_key((#[trigger] self@.devices[j]).device))
                &&& self@.devices[j].device.id == self@.ids[device_key(self@.devices[j].device)]
            } by {
                assert(device_key(self@.devices[j].device) == device_key(before[j].device));
                assert(before[j].device.id == self@.devices[j].device.id);
            }
        }
    }

    /// The decisions about the devices.
    pub fn decisions(&self) -> (r: Vec<Decision>)
        ensures
            r.deep_view() == decisions_of(self@.devices),
    {
        let mut decisions: Vec<Decision> = Vec::new();
        for i in 0..self.devices.len()
            invariant
                decisions@.len() == i,
                forall|j: int|
                    0 <= j < i ==> (#[trigger] decisions@[j])@ == self@.devices[j].decision,
        {
            assert(self@.devices[i as int] == self.devices@[i as int]@);
            decisions.push(self.devices[i].decision.clone());
        }
        assert(decisions.deep_view() =~= decisions_of(self@.devices));
        decisions
    }
}

impl State {
    pub closed spec fn wf(&self) -> bool {
        &&& self.overrides.wf()
        &&& self.ids_by_key.wf()
        &&& consistent(self@)
    }

    /// Numbers are unique, devices go by them, and only devices that are there are overridden.
    pub proof fn law_is_consistent(&self)
        requires
            self.wf(),
        ensures
            consistent(self@),
    {
    }

    pub fn new(config: Config, policy: Policy) -> (r: Self)
        ensures
            r.wf(),
            r@ == new_state(config@, policy@),
    {
        let r = State {
            config,
            policy,
            devices: Vec::new(),
            overrides: Table::new(),
            ids_by_key: Table::new(),
            next_id: 1,
            controller_restore: Vec::new(),
            journal: Vec::new(),
        };
        proof {
            assert(r@.devices =~= Seq::empty());
            assert(r@.restore =~= Seq::empty());
            assert(r@.journal =~= Seq::empty());
        }
        r
    }

    pub fn config(&self) -> (r: &Config)
        ensures
            r@ == self@.config,
    {
        &self.config
    }

    pub fn active_policy(&self) -> (r: &Policy)
        ensures
            r@ == self@.policy,
    {
        &self.policy
    }

    pub fn devices(&self) -> (r: &Vec<DeviceState>)
        ensures
            r.deep_view() == self@.devices,
    {
        &self.devices
    }

    /// The number of devices that are overridden.
    pub fn override_count(&self) -> (r: usize)
        requires
            self.wf(),
        ensures
            r == self@.overrides.dom().len(),
    {
        self.overrides.len()
    }

    /// The action of a device's override, where it has one.
    pub fn override_of(&self, device: &UsbDevice) -> (r: Option<Action>)
        requires
            self.wf(),
        ensures
            r == (if self@.overrides.contains_key(device_key(device@)) {
                Some(self@.overrides[device_key(device@)])
            } else {
                None
            }),
    {
        let key = DeviceKey::of(device);
        match self.overrides.get(&key) {
            Some(action) => Some(*action),
            None => None,
        }
    }

    /// What the controllers are put back to when the daemon ends.
    pub fn controller_restore(&self) -> (r: &Vec<ControllerAuthorizationState>)
        ensures
            r.deep_view() == self@.restore,
    {
        &self.controller_restore
    }

    /// Nothing is enforced.
    pub fn is_dry_run(&self) -> (r: bool)
        ensures
            r == (self@.config.mode == Mode::DryRun),
    {
        self.config.mode == Mode::DryRun
    }

    /// Hands out what has to be logged.
    pub fn take_journal(&mut self) -> (r: Vec<JournalEntry>)
        requires
            old(self).wf(),
        ensures
            final(self).wf(),
            r.deep_view() == old(self)@.journal,
            final(self)@ == (StateView { journal: Seq::empty(), ..old(self)@ }),
    {
        let mut journal: Vec<JournalEntry> = Vec::new();
        std::mem::swap(&mut journal, &mut self.journal);
        assert(self@.journal =~= Seq::empty());
        journal
    }

    /// Records what the controllers are put back to.
    pub fn set_controller_restore(&mut self, states: Vec<ControllerAuthorizationState>)
        requires
            old(self).wf(),
        ensures
            final(self).wf(),
            final(self)@ == (StateView { restore: states.deep_view(), ..old(self)@ }),
    {
        self.controller_restore = states;
    }

    /// Records the policy that is in force.
    pub fn set_policy(&mut self, policy: Policy)
        requires
            old(self).wf(),
        ensures
            final(self).wf(),
            final(self)@ == (StateView { policy: policy@, ..old(self)@ }),
    {
        self.policy = policy;
    }

    /// Adds one entry to what has to be logged.
    pub fn note(&mut self, entry: JournalEntry)
        requires
            old(self).wf(),
        ensures
            final(self).wf(),
            final(self)@ == with_entries(old(self)@, seq![entry@]),
    {
        let ghost before = self.journal.deep_view();
        note(&mut self.journal, entry);
        assert(self.journal.deep_view() =~= before + seq![entry@]);
    }

    /// Adds the entries of some updates of controllers.
    pub fn note_controllers(&mut self, updates: Vec<ControllerAuthorizationUpdate>, applied: bool)
        requires
            old(self).wf(),
        ensures
            final(self).wf(),
            final(self)@ == with_entries(
                old(self)@,
                controller_entries(updates.deep_view(), applied),
            ),
    {
        note_controllers(&mut self.journal, updates, applied);
    }

    /// Adds the entries of some records.
    pub fn note_records(&mut self, records: Vec<LogRecord>)
        requires
            old(self).wf(),
        ensures
            final(self).wf(),
            final(self)@ == with_entries(old(self)@, record_entries(records.deep_view())),
    {
        note_records(&mut self.journal, records);
    }

    /// Adds the entries of actions that would be carried out.
    pub fn note_previews(&mut self, snapshot: &Snapshot)
        requires
            old(self).wf(),
        ensures
            final(self).wf(),
            final(self)@ == with_entries(old(self)@, preview_entries(snapshot@.devices)),
    {
        let ghost start = self@;
        let ghost all = snapshot@.devices;
        assert(start.journal + preview_entries(all.take(0)) =~= start.journal);
        for i in 0..snapshot.devices.len()
            invariant
                all == snapshot@.devices,
                self.wf(),
                self@ == with_entries(start, preview_entries(all.take(i as int))),
        {
            let state = &snapshot.devices[i];
            assert(all[i as int] == snapshot.devices@[i as int]@);
            self.note(
                JournalEntry::Preview {
                    device: super::changes::DeviceSummary::of(&state.device),
                    action: state.decision.action,
                },
            );
            assert(self@.journal =~= start.journal + preview_entries(all.take(i + 1)));
        }
        assert(all.take(all.len() as int) =~= all);
    }

    /// The decision about a device: that of its override, where it has one, or else the policy's.
    pub fn decide_with_policy(&self, device: &UsbDevice, policy: &Policy) -> (r: Decision)
        requires
            self.wf(),
        ensures
            r@ == decision_about(self@.overrides, policy@, device@),
    {
        match self.override_of(device) {
            Some(action) => Decision {
                device_id: device.id,
                action,
                reason: "manual override".to_owned(),
                rule: None,
            },
            None => policy.decide(device),
        }
    }

    /// Numbers the devices that a scan found, and decides about each.
    pub fn build_snapshot(&self, policy: &Policy, devices: Vec<UsbDevice>) -> (r: Result<
        Snapshot,
        Error,
    >)
        requires
            self.wf(),
        ensures
            (match r {
                Ok(snapshot) => Ok(snapshot@),
                Err(error) => Err(error@),
            }) == snapshot_of(self@, policy@, devices.deep_view()),
            r matches Ok(snapshot) ==> snapshot.wf(),
    {
        let ghost all = devices.deep_view();
        let ghost s = self@;
        let mut ids_by_key = self.ids_by_key.duplicate();
        let mut next_id: u32 = self.next_id;
        let mut rest = devices;
        let mut states: Vec<DeviceState> = Vec::new();
        let ghost mut done: int = 0;
        let ghost mut n = NumberingView { devices: Seq::empty(), ids: s.ids, next_id: s.next_id };
        proof {
            assert(all.take(0) =~= Seq::empty());
            assert(rest.deep_view() =~= all.skip(0));
            assert(states.deep_view() =~= decided(s.overrides, policy@, n.devices));
        }
        while rest.len() > 0
            invariant
                self.wf(),
                s == self@,
                all == devices.deep_view(),
                0 <= done <= all.len(),
                rest.deep_view() == all.skip(done),
                ids_by_key.wf(),
                numbering(s.ids, s.next_id, all.take(done)) == Some(n),
                n.ids == ids_by_key@,
                n.next_id == next_id,
                states.deep_view() == decided(s.overrides, policy@, n.devices),
            decreases rest.len(),
        {
            let ghost before = rest.deep_view();
            let ghost states_before = states.deep_view();
            let ghost n_before = n;
            assert(before.len() == rest@.len());
            let mut device = rest.remove(0);
            let ghost found = device@;
            proof {
                assert(before[0] == found);
                assert(all.skip(done)[0] == all[done]);
                assert(rest.deep_view() =~= before.drop_first());
                assert(before.drop_first() =~= all.skip(done + 1));
                assert(all.take(done + 1).drop_last() =~= all.take(done));
                assert(all.take(done + 1).last() == found);
            }
            let key = DeviceKey::of(&device);
            let known = match ids_by_key.get(&key) {
                Some(id) => Some(*id),
                None => None,
            };
            let id: u32 = match known {
                Some(id) => id,
                None => {
                    let id = next_id;
                    if next_id == u32::MAX {
                        proof {
                            lemma_numbering_fails(s.ids, s.next_id, all, done + 1);
                        }
                        return Err(
                            Error::Config("daemon device id counter exhausted".to_owned()),
                        );
                    }
                    next_id = next_id + 1;
                    ids_by_key.insert(key, id);
                    id
                },
            };
            device.id = id;
            let ghost numbered_device = device@;
            let decision = self.decide_with_policy(&device, policy);
            let ghost made = decision@;
            states.push(DeviceState::new(device, decision));
            proof {
                n = numbering(s.ids, s.next_id, all.take(done + 1))->0;
                assert(n.devices == n_before.devices.push(numbered_device));
                assert(states.deep_view() =~= states_before.push(
                    DeviceStateView { device: numbered_device, decision: made },
                ));
                assert(states.deep_view() =~= decided(s.overrides, policy@, n.devices));
                done = done + 1;
            }
        }
        let snapshot = Snapshot { devices: states, ids_by_key, next_id };
        proof {
            assert(all.take(done) =~= all);
            lemma_numbering(s.ids, s.next_id, all);
            assert forall|i: int| 0 <= i < snapshot@.devices.len() implies {
                &&& snapshot@.ids.contains_key(
                    device_key((#[trigger] snapshot@.devices[i]).device),
                )
                &&& snapshot@.devices[i].device.id == snapshot@.ids[device_key(
                    snapshot@.devices[i].device,
                )]
            } by {
                assert(n.devices[i] == snapshot@.devices[i].device);
                assert(device_key(n.devices[i]) == device_key(all[i]));
            }
        }
        Ok(snapshot)
    }

    /// Brings a snapshot into force.
    pub fn commit_snapshot(&mut self, snapshot: Snapshot)
        requires
            old(self).wf(),
            snapshot.wf(),
        ensures
            final(self).wf(),
            final(self)@ == committed(old(self)@, snapshot@),
    {
        let ghost before = self@;
        let events = collect_device_change_events(&self.devices, &snapshot.devices);
        note_changes(&mut self.journal, &events);
        let mut current_keys: Vec<DeviceKey> = Vec::new();
        for i in 0..snapshot.devices.len()
            invariant
                current_keys@.len() == i,
                forall|j: int|
                    0 <= j < i ==> (#[trigger] current_keys@[j])@ == device_key(
                        snapshot@.devices[j].device,
                    ),
        {
            assert(snapshot@.devices[i as int] == snapshot.devices@[i as int]@);
            current_keys.push(DeviceKey::of(&snapshot.devices[i].device));
        }
        proof {
            assert(keys_of(current_keys@) =~= present_keys(snapshot@.devices)) by {
                assert forall|k: DeviceKeyView|
                    keys_of(current_keys@).contains(k) == present_keys(
                        snapshot@.devices,
                    ).contains(k) by {
                    if keys_of(current_keys@).contains(k) {
                        let i = choose|i: int|
                            0 <= i < current_keys@.len() && (#[trigger] current_keys@[i])@ == k;
                        assert(device_key(snapshot@.devices[i].device) == k);
                    }
                    if present(snapshot@.devices, k) {
                        let i = choose|i: int|
                            0 <= i < snapshot@.devices.len() && device_key(
                                (#[trigger] snapshot@.devices[i]).device,
                            ) == k;
                        assert(current_keys@[i]@ == k);
                    }
                }
            }
        }
        self.overrides.retain_keys(&current_keys);
        self.devices = snapshot.devices;
        self.ids_by_key = snapshot.ids_by_key;
        self.next_id = snapshot.next_id;
        proof {
            assert(self@.devices == snapshot@.devices);
            assert forall|key: DeviceKeyView| #[trigger]
                self@.overrides.contains_key(key) implies present(self@.devices, key) by {
                assert(present_keys(snapshot@.devices).contains(key));
            }
        }
    }

    /// The position of the first device with a number.
    pub fn find_device(&self, id: u32) -> (r: Option<usize>)
        ensures
            (match r {
                Some(i) => i as int,
                None => self@.devices.len() as int,
            }) == device_index(self@.devices, id),
            r is Some ==> r->0 < self@.devices.len(),
    {
        let ghost all = self.devices.deep_view();
        for i in 0..self.devices.len()
            invariant
                all == self.devices.deep_view(),
                forall|j: int| 0 <= j < i ==> !has_id(id)(#[trigger] all[j]),
        {
            assert(all[i as int] == self.devices@[i as int]@);
            if self.devices[i].device.id == id {
                proof {
                    lemma_first_index_is(all, has_id(id), i as int);
                }
                return Some(i);
            }
        }
        proof {
            lemma_first_index_is(all, has_id(id), all.len() as int);
        }
        None
    }

    /// The device with a number.
    pub fn device_by_id(&self, id: u32) -> (r: Result<&DeviceState, Error>)
        ensures
            ({
                let i = device_index(self@.devices, id);
                match r {
                    Ok(state) => i < self@.devices.len() && state@ == self@.devices[i],
                    Err(error) => i == self@.devices.len() && error@ == unknown_id(id),
                }
            }),
    {
        match self.find_device(id) {
            Some(i) => {
                assert(self@.devices[i as int] == self.devices@[i as int]@);
                Ok(&self.devices[i])
            },
            None => {
                let mut message = "unknown device id ".to_owned();
                let number = decimal_string(id as u64);
                message.append(number.as_str());
                Err(Error::Protocol(message))
            },
        }
    }

    /// Records a decision about the device with a number.
    pub fn record_device_decision(&mut self, id: u32, decision: Decision)
        requires
            old(self).wf(),
        ensures
            final(self).wf(),
            final(self)@ == recorded(old(self)@, id, decision@),
    {
        let ghost before = self@;
        let ghost all = self.devices.deep_view();
        let dry_run = self.is_dry_run();
        if let Some(i) = self.find_device(id) {
            assert(all[i as int] == self.devices@[i as int]@);
            let mut state = self.devices[i].clone();
            if !dry_run {
                state.device.authorized = Some(decision.action.authorized());
            }
            state.decision = decision;
            let ghost changed = state@;
            self.devices.set(i, state);
            proof {
                let now = self.devices.deep_view();
                assert(now =~= all.update(i as int, changed));
                assert(changed == redecided(all[i as int], changed.decision, dry_run));
                assert forall|j: int| 0 <= j < now.len() implies device_key(
                    (#[trigger] now[j]).device,
                ) == device_key(all[j].device) && now[j].device.id == all[j].device.id by {}
                assert forall|key: DeviceKeyView| #[trigger]
                    self@.overrides.contains_key(key) implies present(self@.devices, key) by {
                    assert(before.overrides.contains_key(key));
                    let j = choose|j: int|
                        0 <= j < all.len() && device_key((#[trigger] all[j]).device) == key;
                    assert(device_key(now[j].device) == key);
                }
            }
        }
    }

    /// Records that a device is overridden.
    pub fn insert_override(&mut self, device: &UsbDevice, action: Action)
        requires
            old(self).wf(),
            present(old(self)@.devices, device_key(device@)),
        ensures
            final(self).wf(),
            final(self)@ == (StateView {
                overrides: old(self)@.overrides.insert(device_key(device@), action),
                ..old(self)@
            }),
    {
        let key = DeviceKey::of(device);
        self.overrides.insert(key, action);
    }

    /// Records that a device is no longer overridden.
    pub fn remove_override(&mut self, device: &UsbDevice)
        requires
            old(self).wf(),
        ensures
            final(self).wf(),
            final(self)@ == (StateView {
                overrides: old(self)@.overrides.remove(device_key(device@)),
                ..old(self)@
            }),
    {
        let key = DeviceKey::of(device);
        self.overrides.remove(&key);
    }
}

} // verus!
