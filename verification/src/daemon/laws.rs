//! What holds of every way in which the daemon's work can go.
use super::identity::{device_key, DeviceKeyView};
use super::state::{
    committed, consistent, decision_about, decisions_of, ids_valid, lemma_numbering, numbered,
    numbering, present, present_keys, snapshot_of, with_entries, SnapshotView, StateView,
};
use super::steps::{
    attempted, controllers_read, controllers_set, dry_run, next_unsettled, policy_for,
    policy_loaded, reload_start, scanned, with_authorized, PurposeView, StepView,
};
use crate::config::{AuthorizedDefault, Loaded};
use crate::device::DeviceStateView;
use crate::error::{ErrorView, IoError};
use crate::policy::laws::law_decision_ignores_authorization;
use crate::policy::validation::{load_failure, loaded_policy, start_failure};
use crate::policy::{Action, Policy, PolicyView};
use crate::sysfs::authorization::{settled, WriteAttempt};
use crate::sysfs::controllers::{writes_resume, ControllerAuthorizationView};
use crate::sysfs::UsbDeviceView;
use vstd::prelude::*;

verus! {

// ---- Runs ------------------------------------------------------------------------------------

/// What came of something that had to be done outside.
pub enum Reply {
    Loaded(Loaded<Policy>),
    Controllers(Result<Seq<ControllerAuthorizationView>, ErrorView>),
    Written(Result<(), IoError>),
    Scanned(Result<Seq<UsbDeviceView>, ErrorView>),
    Attempted(WriteAttempt),
}

/// How work goes on with a reply. A reply to something that was not asked for changes nothing.
pub open spec fn respond(s: StateView, step: StepView, reply: Reply) -> (StateView, StepView) {
    match (step, reply) {
        (StepView::LoadPolicy { path, preview }, Reply::Loaded(loaded)) => (
            s,
            policy_loaded(s, path, preview, loaded),
        ),
        (StepView::ReadControllers(purpose), Reply::Controllers(found)) => controllers_read(
            s,
            purpose,
            found,
        ),
        (
            StepView::WriteController { purpose, desired, pending, next },
            Reply::Written(written),
        ) => controllers_set(s, purpose, writes_resume(desired, pending, next, written)),
        (StepView::Scan(purpose), Reply::Scanned(found)) => scanned(s, purpose, found),
        (StepView::Authorize { purpose, snapshot, index }, Reply::Attempted(attempt)) => attempted(
            s,
            purpose,
            snapshot,
            index,
            attempt,
        ),
        _ => (s, step),
    }
}

/// Where work has come to after some replies.
pub open spec fn run(s: StateView, step: StepView, replies: Seq<Reply>) -> (StateView, StepView)
    decreases replies.len(),
{
    if replies.len() == 0 {
        (s, step)
    } else {
        let before = run(s, step, replies.drop_last());
        respond(before.0, before.1, replies.last())
    }
}

/// Something has to be written.
pub open spec fn writes(step: StepView) -> bool {
    step is WriteController || step is Authorize
}

/// The state but for what has to be logged.
pub open spec fn unlogged(s: StateView) -> StateView {
    StateView { journal: Seq::empty(), ..s }
}

/// In dry-run mode nothing is ever written, whatever is asked of the daemon.
pub proof fn law_dry_run_writes_nothing(s: StateView, step: StepView, replies: Seq<Reply>)
    requires
        dry_run(s),
        !writes(step),
    ensures
        dry_run(run(s, step, replies).0),
        !writes(run(s, step, replies).1),
    decreases replies.len(),
{
    if replies.len() > 0 {
        law_dry_run_writes_nothing(s, step, replies.drop_last());
    }
}

/// Where the controllers are to be kept as they are, none is read or set.
pub proof fn law_kept_controllers_are_left_alone(
    s: StateView,
    step: StepView,
    replies: Seq<Reply>,
)
    requires
        s.config.controllers.authorized_default == AuthorizedDefault::Keep,
        !(step is ReadControllers || step is WriteController),
    ensures
        ({
            let end = run(s, step, replies);
            &&& end.0.config == s.config
            &&& !(end.1 is ReadControllers || end.1 is WriteController)
        }),
    decreases replies.len(),
{
    if replies.len() > 0 {
        law_kept_controllers_are_left_alone(s, step, replies.drop_last());
    }
}

/// No work changes the configuration, nor what the controllers are put back to.
pub proof fn law_configuration_is_kept(s: StateView, step: StepView, replies: Seq<Reply>)
    ensures
        run(s, step, replies).0.config == s.config,
        run(s, step, replies).0.restore == s.restore,
    decreases replies.len(),
{
    if replies.len() > 0 {
        law_configuration_is_kept(s, step, replies.drop_last());
    }
}

/// To see what a reload would do changes nothing and writes nothing, however it goes.
pub proof fn law_preview_changes_nothing(s: StateView, replies: Seq<Reply>)
    ensures
        ({
            let end = run(s, reload_start(s, true), replies);
            &&& unlogged(end.0) == unlogged(s)
            &&& !writes(end.1)
        }),
    decreases replies.len(),
{
    lemma_preview(s, replies);
}

proof fn lemma_preview(s: StateView, replies: Seq<Reply>)
    ensures
        ({
            let end = run(s, reload_start(s, true), replies);
            &&& unlogged(end.0) == unlogged(s)
            &&& match end.1 {
                StepView::LoadPolicy { preview, .. } => preview,
                StepView::Scan(purpose) => purpose is Preview,
                StepView::Done(_) => true,
                _ => false,
            }
        }),
    decreases replies.len(),
{
    if replies.len() > 0 {
        lemma_preview(s, replies.drop_last());
    }
}

/// The policy in force is another one only once work has ended well.
pub proof fn law_failed_work_keeps_the_policy(s: StateView, step: StepView, replies: Seq<Reply>)
    requires
        !(run(s, step, replies).1 matches StepView::Done(Ok(_))),
    ensures
        run(s, step, replies).0.policy == s.policy,
    decreases replies.len(),
{
    if replies.len() > 0 {
        let before = run(s, step, replies.drop_last());
        assert(!(before.1 matches StepView::Done(Ok(_))));
        law_failed_work_keeps_the_policy(s, step, replies.drop_last());
    }
}

/// A reply offers a policy that can come into force: it was loaded, and it is fit for the
/// configuration.
pub open spec fn offers(s: StateView, reply: Reply, policy: PolicyView) -> bool {
    match reply {
        Reply::Loaded(loaded) => {
            &&& load_failure(s.config.policy_path, loaded, s.config) is None
            &&& policy == loaded_policy(loaded, s.config)
            &&& start_failure(policy, s.config) is None
        },
        _ => false,
    }
}

/// One of the replies offers a policy.
pub open spec fn offered(s: StateView, replies: Seq<Reply>, policy: PolicyView) -> bool {
    exists|n: int| 0 <= n < replies.len() && offers(s, #[trigger] replies[n], policy)
}

/// The step is part of a reload to a policy.
pub open spec fn reloads(step: StepView, policy: PolicyView) -> bool {
    match step {
        StepView::ReadControllers(purpose) => purpose == PurposeView::Reload(policy),
        StepView::WriteController { purpose, .. } => purpose == PurposeView::Reload(policy),
        StepView::Scan(purpose) => purpose == PurposeView::Reload(policy) || purpose is Rollback,
        StepView::Authorize { purpose, .. } => purpose == PurposeView::Reload(policy)
            || purpose is Rollback,
        _ => false,
    }
}

proof fn lemma_reload_step(s: StateView, step: StepView, reply: Reply, policy: PolicyView)
    requires
        reloads(step, policy),
    ensures
        ({
            let after = respond(s, step, reply);
            match after.1 {
                StepView::Done(Err(_)) => true,
                StepView::Done(Ok(_)) => after.0.policy == policy,
                next => reloads(next, policy),
            }
        }),
{
}

/// A reload that ends well has put a policy into force that was loaded and found fit for the
/// configuration.
pub proof fn law_reload_replaces_the_policy(s: StateView, replies: Seq<Reply>)
    ensures
        ({
            let end = run(s, reload_start(s, false), replies);
            end.1 matches StepView::Done(Ok(_)) ==> offered(s, replies, end.0.policy)
        }),
{
    lemma_reload(s, replies);
}

proof fn lemma_offered_later(s: StateView, replies: Seq<Reply>, policy: PolicyView)
    requires
        replies.len() > 0,
        offered(s, replies.drop_last(), policy),
    ensures
        offered(s, replies, policy),
{
    let rest = replies.drop_last();
    let n = choose|n: int| 0 <= n < rest.len() && offers(s, #[trigger] rest[n], policy);
    assert(replies[n] == rest[n]);
}

proof fn lemma_reload(s: StateView, replies: Seq<Reply>)
    ensures
        ({
            let end = run(s, reload_start(s, false), replies);
            match end.1 {
                StepView::LoadPolicy { .. } => end.1 == reload_start(s, false) && end.0 == s,
                StepView::Done(Err(_)) => true,
                StepView::Done(Ok(_)) => offered(s, replies, end.0.policy),
                step => exists|policy: PolicyView|
                    #![trigger offered(s, replies, policy)]
                    offered(s, replies, policy) && reloads(step, policy),
            }
        }),
    decreases replies.len(),
{
    let start = reload_start(s, false);
    if replies.len() > 0 {
        let rest = replies.drop_last();
        lemma_reload(s, rest);
        let before = run(s, start, rest);
        let end = run(s, start, replies);
        match before.1 {
            StepView::LoadPolicy { preview, .. } => {
                if let Reply::Loaded(loaded) = replies.last() {
                    let policy = loaded_policy(loaded, s.config);
                    if !(end.1 is Done) {
                        assert(offers(s, replies[replies.len() - 1], policy));
                        assert(offered(s, replies, policy));
                        assert(reloads(end.1, policy));
                    }
                }
            },
            StepView::Done(Err(_)) => {},
            StepView::Done(Ok(_)) => {
                lemma_offered_later(s, replies, before.0.policy);
            },
            step => {
                let policy = choose|policy: PolicyView|
                    #![trigger offered(s, rest, policy)]
                    offered(s, rest, policy) && reloads(step, policy);
                lemma_offered_later(s, replies, policy);
                lemma_reload_step(before.0, step, replies.last(), policy);
            },
        }
    }
}

// ---- What a step in progress relies on -------------------------------------------------------

/// Every device of a list has the decision that its override or a policy makes.
pub open spec fn all_decided(
    devices: Seq<DeviceStateView>,
    overrides: Map<DeviceKeyView, Action>,
    policy: PolicyView,
) -> bool {
    forall|i: int|
        0 <= i < devices.len() ==> (#[trigger] devices[i]).decision == decision_about(
            overrides,
            policy,
            devices[i].device,
        )
}

/// What is recorded about each device is what its override says, where it has one, or else what
/// the policy in force says.
pub open spec fn decisions_in_force(s: StateView) -> bool {
    all_decided(s.devices, s.overrides, s.policy)
}

/// A step belongs to a state: a snapshot that is being applied keeps the state's numbers, and
/// holds the decisions that the state's overrides and the policy make; the device whose turn it
/// is does not have the authorization yet.
pub open spec fn fits(s: StateView, step: StepView) -> bool {
    match step {
        StepView::Authorize { purpose, snapshot, index } => {
            &&& 0 <= index < snapshot.devices.len()
            &&& !settled(snapshot.devices[index].device, snapshot.devices[index].decision.action)
            &&& ids_valid(snapshot.ids, snapshot.next_id)
            &&& s.ids.submap_of(snapshot.ids)
            &&& numbered(snapshot.devices, snapshot.ids)
            &&& all_decided(snapshot.devices, s.overrides, policy_for(s, purpose))
            &&& !(purpose is Preview)
        },
        _ => true,
    }
}

/// The work itself has not ended yet.
pub open spec fn unfinished(step: StepView) -> bool {
    !(step is Done)
}

pub proof fn lemma_next_unsettled(devices: Seq<DeviceStateView>, i: int)
    requires
        0 <= i <= devices.len(),
    ensures
        ({
            let j = next_unsettled(devices, i);
            &&& i <= j <= devices.len()
            &&& j < devices.len() ==> !settled(devices[j].device, devices[j].decision.action)
            &&& forall|k: int|
                i <= k < j ==> settled(
                    (#[trigger] devices[k]).device,
                    devices[k].decision.action,
                )
        }),
    decreases devices.len() - i,
{
    if i < devices.len() && settled(devices[i].device, devices[i].decision.action) {
        lemma_next_unsettled(devices, i + 1);
    }
}

/// The decision about a device does not depend on its authorization.
proof fn lemma_decision_about(
    overrides: Map<DeviceKeyView, Action>,
    policy: PolicyView,
    device: UsbDeviceView,
    authorized: Option<bool>,
)
    ensures
        decision_about(overrides, policy, UsbDeviceView { authorized, ..device })
            == decision_about(overrides, policy, device),
{
    law_decision_ignores_authorization(
        policy,
        device,
        device.id,
        authorized,
        device.sysfs_path,
    );
}

/// What a snapshot that was just made holds.
pub proof fn lemma_snapshot(s: StateView, policy: PolicyView, devices: Seq<UsbDeviceView>)
    requires
        ids_valid(s.ids, s.next_id),
        snapshot_of(s, policy, devices) is Ok,
    ensures
        ({
            let snapshot = snapshot_of(s, policy, devices)->Ok_0;
            &&& ids_valid(snapshot.ids, snapshot.next_id)
            &&& s.ids.submap_of(snapshot.ids)
            &&& numbered(snapshot.devices, snapshot.ids)
            &&& all_decided(snapshot.devices, s.overrides, policy)
            &&& snapshot.devices.len() == devices.len()
        }),
{
    let snapshot = snapshot_of(s, policy, devices)->Ok_0;
    let n = numbering(s.ids, s.next_id, devices)->0;
    lemma_numbering(s.ids, s.next_id, devices);
    assert forall|i: int| 0 <= i < snapshot.devices.len() implies {
        &&& snapshot.ids.contains_key(device_key((#[trigger] snapshot.devices[i]).device))
        &&& snapshot.devices[i].device.id == snapshot.ids[device_key(snapshot.devices[i].device)]
    } by {
        assert(n.devices[i] == snapshot.devices[i].device);
        assert(device_key(n.devices[i]) == device_key(devices[i]));
    }
}

/// What a snapshot holds stays true when a device gets the authorization that was decided.
pub proof fn lemma_with_authorized(
    s: StateView,
    policy: PolicyView,
    snapshot: SnapshotView,
    i: int,
)
    requires
        0 <= i < snapshot.devices.len(),
        numbered(snapshot.devices, snapshot.ids),
        all_decided(snapshot.devices, s.overrides, policy),
    ensures
        ({
            let now = with_authorized(snapshot, i);
            &&& numbered(now.devices, now.ids)
            &&& all_decided(now.devices, s.overrides, policy)
            &&& settled(now.devices[i].device, now.devices[i].decision.action)
            &&& now.devices.len() == snapshot.devices.len()
            &&& forall|j: int|
                0 <= j < now.devices.len() && j != i ==> #[trigger] now.devices[j]
                    == snapshot.devices[j]
        }),
{
    let now = with_authorized(snapshot, i);
    assert forall|j: int| 0 <= j < now.devices.len() implies {
        &&& now.ids.contains_key(device_key((#[trigger] now.devices[j]).device))
        &&& now.devices[j].device.id == now.ids[device_key(now.devices[j].device)]
    } by {
        assert(device_key(now.devices[j].device) == device_key(snapshot.devices[j].device));
        assert(snapshot.devices[j].device.id == now.devices[j].device.id);
    }
    assert forall|j: int| 0 <= j < now.devices.len() implies (#[trigger] now.devices[j]).decision
        == decision_about(s.overrides, policy, now.devices[j].device) by {
        let old = snapshot.devices[j];
        assert(old.decision == decision_about(s.overrides, policy, old.device));
        if j == i {
            lemma_decision_about(
                s.overrides,
                policy,
                old.device,
                now.devices[j].device.authorized,
            );
        }
    }
}

/// What holds of the state after a snapshot came into force.
proof fn lemma_committed(s: StateView, snapshot: SnapshotView)
    requires
        ids_valid(snapshot.ids, snapshot.next_id),
        numbered(snapshot.devices, snapshot.ids),
        all_decided(snapshot.devices, s.overrides, s.policy),
    ensures
        consistent(committed(s, snapshot)),
        decisions_in_force(committed(s, snapshot)),
{
    let after = committed(s, snapshot);
    assert forall|key: DeviceKeyView| #[trigger] after.overrides.contains_key(key) implies present(
        after.devices,
        key,
    ) by {
        assert(present_keys(snapshot.devices).contains(key));
    }
    assert forall|i: int| 0 <= i < after.devices.len() implies (
    #[trigger] after.devices[i]).decision == decision_about(
        after.overrides,
        after.policy,
        after.devices[i].device,
    ) by {
        let key = device_key(after.devices[i].device);
        assert(present(snapshot.devices, key));
        assert(present_keys(snapshot.devices).contains(key));
        assert(snapshot.devices[i].decision == decision_about(
            s.overrides,
            s.policy,
            snapshot.devices[i].device,
        ));
    }
}

/// What one reply does to a state and a step that belong to each other.
proof fn lemma_respond(s: StateView, step: StepView, reply: Reply)
    requires
        consistent(s),
        fits(s, step),
    ensures
        ({
            let after = respond(s, step, reply);
            &&& consistent(after.0)
            &&& fits(after.0, after.1)
            &&& s.ids.submap_of(after.0.ids)
            &&& after.0.overrides == s.overrides.restrict(present_keys(after.0.devices))
            &&& decisions_in_force(s) ==> decisions_in_force(after.0)
        }),
{
    let after = respond(s, step, reply);
    assert(s.overrides =~= s.overrides.restrict(present_keys(s.devices)));
    match (step, reply) {
        (StepView::Scan(purpose), Reply::Scanned(Ok(devices))) => {
            let policy = policy_for(s, purpose);
            if snapshot_of(s, policy, devices) is Ok {
                let snapshot = snapshot_of(s, policy, devices)->Ok_0;
                lemma_snapshot(s, policy, devices);
                lemma_next_unsettled(snapshot.devices, 0);
                let logged = with_entries(s, super::state::preview_entries(snapshot.devices));
                match purpose {
                    PurposeView::Reload(p) => {
                        lemma_committed(StateView { policy: p, ..s }, snapshot);
                        lemma_committed(StateView { policy: p, ..logged }, snapshot);
                    },
                    PurposeView::Preview(p) => {},
                    _ => {
                        lemma_committed(s, snapshot);
                        lemma_committed(logged, snapshot);
                    },
                }
            }
        },
        (StepView::Authorize { purpose, snapshot, index }, Reply::Attempted(attempt)) => {
            let policy = policy_for(s, purpose);
            lemma_with_authorized(s, policy, snapshot, index);
            let now = with_authorized(snapshot, index);
            let gone = with_entries(
                s,
                seq![
                    super::journal::JournalEntryView::DeviceGone(
                        super::changes::device_summary(snapshot.devices[index].device),
                    ),
                ],
            );
            lemma_next_unsettled(snapshot.devices, index + 1);
            lemma_next_unsettled(now.devices, index + 1);
            match purpose {
                PurposeView::Reload(p) => {
                    lemma_committed(StateView { policy: p, ..s }, now);
                    lemma_committed(StateView { policy: p, ..gone }, snapshot);
                },
                PurposeView::Preview(p) => {},
                _ => {
                    lemma_committed(s, now);
                    lemma_committed(gone, snapshot);
                },
            }
        },
        _ => {},
    }
}

proof fn lemma_submap_transitive(
    a: Map<DeviceKeyView, u32>,
    b: Map<DeviceKeyView, u32>,
    c: Map<DeviceKeyView, u32>,
)
    requires
        a.submap_of(b),
        b.submap_of(c),
    ensures
        a.submap_of(c),
{
    assert forall|k: DeviceKeyView| #[trigger] a.dom().contains(k) implies c.dom().contains(k)
        && a[k] == c[k] by {
        assert(b.dom().contains(k));
    }
}

/// Whatever happens, numbers stay unique, devices go by them, only devices that are there are
/// overridden, and a device that was seen once keeps its number for good.
pub proof fn law_numbers_are_kept(s: StateView, step: StepView, replies: Seq<Reply>)
    requires
        consistent(s),
        fits(s, step),
    ensures
        ({
            let end = run(s, step, replies);
            &&& consistent(end.0)
            &&& fits(end.0, end.1)
            &&& s.ids.submap_of(end.0.ids)
        }),
    decreases replies.len(),
{
    if replies.len() > 0 {
        law_numbers_are_kept(s, step, replies.drop_last());
        let before = run(s, step, replies.drop_last());
        lemma_respond(before.0, before.1, replies.last());
        lemma_submap_transitive(s.ids, before.0.ids, run(s, step, replies).0.ids);
    }
}

/// A device goes by the same number as long as the daemon runs, and no two devices of different
/// identities go by one number: of a device before some work and one after it, the numbers are
/// equal exactly where the identities are.
pub proof fn law_numbers_tell_devices_apart(
    s: StateView,
    step: StepView,
    replies: Seq<Reply>,
    i: int,
    j: int,
)
    requires
        consistent(s),
        fits(s, step),
        0 <= i < s.devices.len(),
        0 <= j < run(s, step, replies).0.devices.len(),
    ensures
        ({
            let before = s.devices[i].device;
            let after = run(s, step, replies).0.devices[j].device;
            before.id == after.id <==> device_key(before) == device_key(after)
        }),
{
    law_numbers_are_kept(s, step, replies);
    let end = run(s, step, replies).0;
    let before = device_key(s.devices[i].device);
    let after = device_key(end.devices[j].device);
    assert(s.ids.dom().contains(before));
    assert(end.ids.contains_key(before) && end.ids[before] == s.ids[before]);
    assert(end.ids.contains_key(after));
}

/// What is recorded about each device is always what its override says, where it has one, or else
/// what the policy in force says: also after a reload, and after a reload that was undone.
pub proof fn law_decisions_stay_in_force(s: StateView, step: StepView, replies: Seq<Reply>)
    requires
        consistent(s),
        fits(s, step),
        decisions_in_force(s),
    ensures
        decisions_in_force(run(s, step, replies).0),
    decreases replies.len(),
{
    if replies.len() > 0 {
        law_decisions_stay_in_force(s, step, replies.drop_last());
        law_numbers_are_kept(s, step, replies.drop_last());
        let before = run(s, step, replies.drop_last());
        lemma_respond(before.0, before.1, replies.last());
    }
}

/// Overrides stay with the devices they were given to: whatever happens, a device that was
/// overridden stays so, with the same action, exactly as long as a device with its identity is
/// there, and no other device takes an override over.
pub proof fn law_overrides_stay_with_their_devices(
    s: StateView,
    step: StepView,
    replies: Seq<Reply>,
)
    requires
        consistent(s),
        fits(s, step),
        unfinished(step),
    ensures
        ({
            let end = run(s, step, replies).0;
            end.overrides == s.overrides.restrict(present_keys(end.devices))
        }),
    decreases replies.len(),
{
    lemma_overrides(s, step, replies);
}

proof fn lemma_overrides(s: StateView, step: StepView, replies: Seq<Reply>)
    requires
        consistent(s),
        fits(s, step),
        unfinished(step),
    ensures
        ({
            let end = run(s, step, replies);
            &&& end.0.overrides == s.overrides.restrict(present_keys(end.0.devices))
            &&& unfinished(end.1) ==> end.0.devices == s.devices && end.0.overrides
                == s.overrides
        }),
    decreases replies.len(),
{
    assert(s.overrides =~= s.overrides.restrict(present_keys(s.devices)));
    if replies.len() > 0 {
        lemma_overrides(s, step, replies.drop_last());
        law_numbers_are_kept(s, step, replies.drop_last());
        let before = run(s, step, replies.drop_last());
        lemma_respond(before.0, before.1, replies.last());
    }
}

/// Work that ends well, other than a preview, answers with the decisions that are in force then.
pub proof fn law_answers_are_in_force(s: StateView, step: StepView, replies: Seq<Reply>)
    requires
        consistent(s),
        fits(s, step),
        unfinished(step),
        !previews(step),
    ensures
        ({
            let end = run(s, step, replies);
            end.1 matches StepView::Done(Ok(decisions)) ==> {
                &&& decisions == decisions_of(end.0.devices)
                &&& decisions_in_force(end.0)
            }
        }),
    decreases replies.len(),
{
    lemma_answers(s, step, replies);
}

/// The step is part of finding out what a reload would do.
pub open spec fn previews(step: StepView) -> bool {
    match step {
        StepView::LoadPolicy { preview, .. } => preview,
        StepView::ReadControllers(purpose) => purpose is Preview,
        StepView::WriteController { purpose, .. } => purpose is Preview,
        StepView::Scan(purpose) => purpose is Preview,
        StepView::Authorize { purpose, .. } => purpose is Preview,
        StepView::Done(_) => false,
    }
}

proof fn lemma_answers(s: StateView, step: StepView, replies: Seq<Reply>)
    requires
        consistent(s),
        fits(s, step),
        unfinished(step),
        !previews(step),
    ensures
        ({
            let end = run(s, step, replies);
            &&& !previews(end.1)
            &&& end.1 matches StepView::Done(Ok(decisions)) ==> {
                &&& decisions == decisions_of(end.0.devices)
                &&& decisions_in_force(end.0)
            }
        }),
    decreases replies.len(),
{
    if replies.len() > 0 {
        lemma_answers(s, step, replies.drop_last());
        law_numbers_are_kept(s, step, replies.drop_last());
        let before = run(s, step, replies.drop_last());
        if unfinished(before.1) {
            lemma_answer(before.0, before.1, replies.last());
        }
    }
}

proof fn lemma_answer(s: StateView, step: StepView, reply: Reply)
    requires
        consistent(s),
        fits(s, step),
        unfinished(step),
        !previews(step),
    ensures
        ({
            let after = respond(s, step, reply);
            &&& !previews(after.1)
            &&& after.1 matches StepView::Done(Ok(decisions)) ==> {
                &&& decisions == decisions_of(after.0.devices)
                &&& decisions_in_force(after.0)
            }
        }),
{
    match (step, reply) {
        (StepView::Scan(purpose), Reply::Scanned(Ok(devices))) => {
            let policy = policy_for(s, purpose);
            if snapshot_of(s, policy, devices) is Ok {
                let snapshot = snapshot_of(s, policy, devices)->Ok_0;
                lemma_snapshot(s, policy, devices);
                let logged = with_entries(s, super::state::preview_entries(snapshot.devices));
                match purpose {
                    PurposeView::Reload(p) => {
                        lemma_committed(StateView { policy: p, ..s }, snapshot);
                        lemma_committed(StateView { policy: p, ..logged }, snapshot);
                    },
                    _ => {
                        lemma_committed(s, snapshot);
                        lemma_committed(logged, snapshot);
                    },
                }
            }
        },
        (StepView::Authorize { purpose, snapshot, index }, Reply::Attempted(attempt)) => {
            let policy = policy_for(s, purpose);
            lemma_with_authorized(s, policy, snapshot, index);
            let now = with_authorized(snapshot, index);
            let gone = with_entries(
                s,
                seq![
                    super::journal::JournalEntryView::DeviceGone(
                        super::changes::device_summary(snapshot.devices[index].device),
                    ),
                ],
            );
            match purpose {
                PurposeView::Reload(p) => {
                    lemma_committed(StateView { policy: p, ..s }, now);
                    lemma_committed(StateView { policy: p, ..gone }, snapshot);
                },
                _ => {
                    lemma_committed(s, now);
                    lemma_committed(gone, snapshot);
                },
            }
        },
        _ => {},
    }
}

// ---- Enforcement -----------------------------------------------------------------------------

/// Every device has the authorization that was decided.
pub open spec fn all_settled(devices: Seq<DeviceStateView>) -> bool {
    forall|i: int|
        0 <= i < devices.len() ==> settled(
            (#[trigger] devices[i]).device,
            devices[i].decision.action,
        )
}

/// The devices before the one whose turn it is have the authorization that was decided.
pub open spec fn settled_so_far(step: StepView) -> bool {
    match step {
        StepView::Authorize { purpose, snapshot, index } => forall|j: int|
            0 <= j < index ==> settled(
                (#[trigger] snapshot.devices[j]).device,
                snapshot.devices[j].decision.action,
            ),
        _ => true,
    }
}

/// A device was not found when its authorization was to be written.
pub open spec fn found_gone(reply: Reply) -> bool {
    match reply {
        Reply::Attempted(WriteAttempt::NotOpened(error)) =>
            crate::sysfs::authorization::device_gone(error@),
        Reply::Attempted(WriteAttempt::NotWritten(error)) =>
            crate::sysfs::authorization::device_gone(error@),
        _ => false,
    }
}

proof fn lemma_settled(s: StateView, step: StepView, reply: Reply)
    requires
        consistent(s),
        fits(s, step),
        settled_so_far(step),
        unfinished(step),
        !previews(step),
        !dry_run(s),
        !found_gone(reply),
    ensures
        ({
            let after = respond(s, step, reply);
            &&& settled_so_far(after.1)
            &&& after.1 matches StepView::Done(Ok(_)) ==> all_settled(after.0.devices)
        }),
{
    match (step, reply) {
        (StepView::Scan(purpose), Reply::Scanned(Ok(devices))) => {
            let policy = policy_for(s, purpose);
            if snapshot_of(s, policy, devices) is Ok {
                lemma_next_unsettled(snapshot_of(s, policy, devices)->Ok_0.devices, 0);
            }
        },
        (StepView::Authorize { purpose, snapshot, index }, Reply::Attempted(attempt)) => {
            let policy = policy_for(s, purpose);
            lemma_with_authorized(s, policy, snapshot, index);
            let now = with_authorized(snapshot, index);
            lemma_next_unsettled(now.devices, index + 1);
            let last = next_unsettled(now.devices, index + 1);
            assert forall|j: int| 0 <= j < last implies settled(
                (#[trigger] now.devices[j]).device,
                now.devices[j].decision.action,
            ) by {
                if j < index {
                    assert(now.devices[j] == snapshot.devices[j]);
                }
            }
        },
        _ => {},
    }
}

/// Where decisions are enforced, work that ends well leaves no device with another authorization
/// than the one that was decided. Only devices that were gone by then may be left out.
pub proof fn law_decisions_are_enforced(s: StateView, step: StepView, replies: Seq<Reply>)
    requires
        consistent(s),
        !dry_run(s),
        !writes(step),
        unfinished(step),
        !previews(step),
        forall|i: int| 0 <= i < replies.len() ==> !found_gone(#[trigger] replies[i]),
    ensures
        run(s, step, replies).1 matches StepView::Done(Ok(_)) ==> all_settled(
            run(s, step, replies).0.devices,
        ),
    decreases replies.len(),
{
    lemma_enforced(s, step, replies);
}

proof fn lemma_enforced(s: StateView, step: StepView, replies: Seq<Reply>)
    requires
        consistent(s),
        !dry_run(s),
        !writes(step),
        unfinished(step),
        !previews(step),
        forall|i: int| 0 <= i < replies.len() ==> !found_gone(#[trigger] replies[i]),
    ensures
        ({
            let end = run(s, step, replies);
            &&& settled_so_far(end.1)
            &&& end.1 matches StepView::Done(Ok(_)) ==> all_settled(end.0.devices)
        }),
    decreases replies.len(),
{
    if replies.len() > 0 {
        let rest = replies.drop_last();
        assert forall|i: int| 0 <= i < rest.len() implies !found_gone(#[trigger] rest[i]) by {
            assert(rest[i] == replies[i]);
        }
        lemma_enforced(s, step, rest);
        law_numbers_are_kept(s, step, rest);
        law_configuration_is_kept(s, step, rest);
        lemma_answers(s, step, rest);
        let before = run(s, step, rest);
        assert(!found_gone(replies[replies.len() - 1]));
        if unfinished(before.1) {
            lemma_settled(before.0, before.1, replies.last());
        }
    }
}

/// A device is written to only where it does not have the authorization that was decided.
pub proof fn law_settled_devices_are_left_alone(
    s: StateView,
    step: StepView,
    replies: Seq<Reply>,
)
    requires
        consistent(s),
        !writes(step),
    ensures
        run(s, step, replies).1 matches StepView::Authorize { purpose, snapshot, index } ==> {
            &&& 0 <= index < snapshot.devices.len()
            &&& !settled(snapshot.devices[index].device, snapshot.devices[index].decision.action)
        },
{
    law_numbers_are_kept(s, step, replies);
}

} // verus!
