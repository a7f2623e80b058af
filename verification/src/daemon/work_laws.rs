//! What refreshes and reloads leave behind, told by what was found and what was written.
use super::identity::device_key;
use super::laws::{
    all_settled, decisions_in_force, fits, found_gone, law_answers_are_in_force,
    law_configuration_is_kept, law_decisions_are_enforced, law_numbers_are_kept,
    law_reload_replaces_the_policy, lemma_next_unsettled, lemma_snapshot, lemma_with_authorized,
    offered, offers, previews, respond, run, settled_so_far, unfinished, writes, Reply,
};
use super::number_laws::{law_numbers_run_out, new_identities};
use super::state::{
    consistent, decision_about, lemma_numbering, numbering, snapshot_of, SnapshotView, StateView,
};
use super::steps::{
    next_unsettled, policy_for, refresh_start, reload_start, with_authorized, PurposeView,
    StepView,
};
use crate::config::{AuthorizedDefault, Loaded, Mode};
use crate::device::DeviceStateView;
use crate::error::{ErrorView, IoErrorKind};
use crate::policy::start_laws::{law_loaded_policies, law_policies_to_start_with, well_formed};
use crate::policy::{policy_decision, Action, DecisionView, PolicyView};
use crate::sysfs::authorization::{settled, WriteAttempt};
use crate::sysfs::UsbDeviceView;
use vstd::prelude::*;

verus! {

// ---- What is recorded ------------------------------------------------------------------------

/// The devices that a scan found, where the reply is of one.
pub open spec fn found_by(reply: Reply) -> Seq<UsbDeviceView> {
    match reply {
        Reply::Scanned(Ok(found)) => found,
        _ => Seq::empty(),
    }
}

/// A reply is of a scan that found these devices, in this order, each with all that is recorded of
/// it but its number and its authorization.
pub open spec fn scan_shown(reply: Reply, devices: Seq<DeviceStateView>) -> bool {
    &&& reply matches Reply::Scanned(Ok(_))
    &&& devices.len() == found_by(reply).len()
    &&& forall|i: int|
        0 <= i < devices.len() ==> (#[trigger] devices[i]).device == (UsbDeviceView {
            id: devices[i].device.id,
            authorized: devices[i].device.authorized,
            ..found_by(reply)[i]
        })
}

/// With one of the replies the authorization was written that was decided for a device, while it
/// was that device's turn.
pub open spec fn written_at(
    s: StateView,
    step: StepView,
    replies: Seq<Reply>,
    m: int,
    i: int,
    state: DeviceStateView,
) -> bool {
    &&& replies[m] == Reply::Attempted(WriteAttempt::Written)
    &&& match run(s, step, replies.take(m)).1 {
        StepView::Authorize { purpose, snapshot, index } => {
            &&& index == i
            &&& 0 <= i < snapshot.devices.len()
            &&& snapshot.devices[i].device.sysfs_path == state.device.sysfs_path
            &&& snapshot.devices[i].decision == state.decision
        },
        _ => false,
    }
}

/// What is recorded of the authorization of a device is what a scan found, or what was written
/// since.
pub open spec fn authorization_known(
    s: StateView,
    step: StepView,
    replies: Seq<Reply>,
    n: int,
    i: int,
    state: DeviceStateView,
) -> bool {
    ||| state.device.authorized == found_by(replies[n])[i].authorized
    ||| state.device.authorized == Some(state.decision.action == Action::Allow) && exists|m: int|
        n < m < replies.len() && #[trigger] written_at(s, step, replies, m, i, state)
}

/// The devices are those of the scan that one of the replies is of, with what was written since.
pub open spec fn accounted(
    s: StateView,
    step: StepView,
    replies: Seq<Reply>,
    devices: Seq<DeviceStateView>,
) -> bool {
    exists|n: int|
        0 <= n < replies.len() && scan_shown(#[trigger] replies[n], devices) && forall|i: int|
            0 <= i < devices.len() ==> authorization_known(
                s,
                step,
                replies,
                n,
                i,
                #[trigger] devices[i],
            )
}

/// The devices that a step is about, or that are recorded once it ended well.
pub open spec fn devices_of(s: StateView, step: StepView) -> Option<Seq<DeviceStateView>> {
    match step {
        StepView::Authorize { purpose, snapshot, index } => Some(snapshot.devices),
        StepView::Done(Ok(_)) => Some(s.devices),
        _ => None,
    }
}

proof fn lemma_later(
    s: StateView,
    step: StepView,
    replies: Seq<Reply>,
    n: int,
    i: int,
    state: DeviceStateView,
)
    requires
        replies.len() > 0,
        0 <= n < replies.len() - 1,
        authorization_known(s, step, replies.drop_last(), n, i, state),
    ensures
        authorization_known(s, step, replies, n, i, state),
{
    let rest = replies.drop_last();
    assert(replies[n] == rest[n]);
    if state.device.authorized != found_by(rest[n])[i].authorized {
        let m = choose|m: int|
            n < m < rest.len() && #[trigger] written_at(s, step, rest, m, i, state);
        assert(replies.take(m) =~= rest.take(m));
        assert(written_at(s, step, replies, m, i, state));
    }
}

proof fn lemma_accounted_later(
    s: StateView,
    step: StepView,
    replies: Seq<Reply>,
    devices: Seq<DeviceStateView>,
)
    requires
        replies.len() > 0,
        accounted(s, step, replies.drop_last(), devices),
    ensures
        accounted(s, step, replies, devices),
{
    let rest = replies.drop_last();
    let n = choose|n: int|
        0 <= n < rest.len() && scan_shown(#[trigger] rest[n], devices) && forall|i: int|
            0 <= i < devices.len() ==> authorization_known(
                s,
                step,
                rest,
                n,
                i,
                #[trigger] devices[i],
            );
    assert(replies[n] == rest[n]);
    assert forall|i: int| 0 <= i < devices.len() implies authorization_known(
        s,
        step,
        replies,
        n,
        i,
        #[trigger] devices[i],
    ) by {
        lemma_later(s, step, replies, n, i, devices[i]);
    }
}

proof fn lemma_written(
    s: StateView,
    step: StepView,
    replies: Seq<Reply>,
    snapshot: SnapshotView,
    index: int,
)
    requires
        replies.len() > 0,
        replies.last() == Reply::Attempted(WriteAttempt::Written),
        run(s, step, replies.drop_last()).1 matches StepView::Authorize {
            purpose,
            snapshot: now,
            index: at,
        } && now == snapshot && at == index,
        0 <= index < snapshot.devices.len(),
        accounted(s, step, replies.drop_last(), snapshot.devices),
    ensures
        accounted(s, step, replies, with_authorized(snapshot, index).devices),
{
    let rest = replies.drop_last();
    let before = snapshot.devices;
    let devices = with_authorized(snapshot, index).devices;
    let last = replies.len() - 1;
    let n = choose|n: int|
        0 <= n < rest.len() && scan_shown(#[trigger] rest[n], before) && forall|i: int|
            0 <= i < before.len() ==> authorization_known(
                s,
                step,
                rest,
                n,
                i,
                #[trigger] before[i],
            );
    assert(replies[n] == rest[n]);
    assert(replies.take(last) =~= rest);
    assert(scan_shown(replies[n], devices)) by {
        assert forall|i: int| 0 <= i < devices.len() implies (#[trigger] devices[i]).device == (
        UsbDeviceView {
            id: devices[i].device.id,
            authorized: devices[i].device.authorized,
            ..found_by(replies[n])[i]
        }) by {
            assert(before[i].device == (UsbDeviceView {
                id: before[i].device.id,
                authorized: before[i].device.authorized,
                ..found_by(rest[n])[i]
            }));
        }
    }
    assert forall|i: int| 0 <= i < devices.len() implies authorization_known(
        s,
        step,
        replies,
        n,
        i,
        #[trigger] devices[i],
    ) by {
        if i == index {
            assert(replies[last] == replies.last());
            assert(written_at(s, step, replies, last, i, devices[i]));
        } else {
            assert(devices[i] == before[i]);
            assert(authorization_known(s, step, rest, n, i, before[i]));
            lemma_later(s, step, replies, n, i, before[i]);
        }
    }
}

proof fn lemma_scanned(
    s: StateView,
    step: StepView,
    replies: Seq<Reply>,
    now: StateView,
    policy: PolicyView,
    found: Seq<UsbDeviceView>,
)
    requires
        replies.len() > 0,
        replies.last() == Reply::Scanned(Ok(found)),
        consistent(now),
        snapshot_of(now, policy, found) is Ok,
    ensures
        accounted(s, step, replies, snapshot_of(now, policy, found)->Ok_0.devices),
{
    let devices = snapshot_of(now, policy, found)->Ok_0.devices;
    let n = replies.len() - 1;
    lemma_numbering(now.ids, now.next_id, found);
    let given = numbering(now.ids, now.next_id, found)->0.devices;
    assert(replies[n] == replies.last());
    assert forall|i: int| 0 <= i < devices.len() implies (#[trigger] devices[i]).device == (
    UsbDeviceView {
        id: devices[i].device.id,
        authorized: devices[i].device.authorized,
        ..found_by(replies[n])[i]
    }) && devices[i].device.authorized == found[i].authorized by {
        assert(devices[i].device == given[i]);
    }
    assert(scan_shown(replies[n], devices));
    assert forall|i: int| 0 <= i < devices.len() implies authorization_known(
        s,
        step,
        replies,
        n,
        i,
        #[trigger] devices[i],
    ) by {
        assert(devices[i].device.authorized == found[i].authorized);
    }
}

/// The devices that a step is about after a reply are those that were just found, or those of the
/// step before, with what was just written.
proof fn lemma_devices_after(s: StateView, step: StepView, reply: Reply)
    requires
        !previews(step),
    ensures
        ({
            let after = respond(s, step, reply);
            &&& !previews(after.1)
            &&& devices_of(after.0, after.1) matches Some(devices) ==> match (step, reply) {
                (StepView::Scan(purpose), Reply::Scanned(Ok(found))) => {
                    &&& snapshot_of(s, policy_for(s, purpose), found) is Ok
                    &&& devices == snapshot_of(s, policy_for(s, purpose), found)->Ok_0.devices
                },
                (
                    StepView::Authorize { purpose, snapshot, index },
                    Reply::Attempted(WriteAttempt::Written),
                ) => devices == with_authorized(snapshot, index).devices,
                (StepView::Authorize { purpose, snapshot, index }, _) => devices
                    == snapshot.devices,
                (StepView::Done(Ok(_)), _) => devices == s.devices,
                _ => false,
            }
        }),
{
}

proof fn lemma_accounted(s: StateView, step: StepView, replies: Seq<Reply>)
    requires
        consistent(s),
        !writes(step),
        unfinished(step),
        !previews(step),
    ensures
        ({
            let end = run(s, step, replies);
            &&& !previews(end.1)
            &&& devices_of(end.0, end.1) matches Some(devices) ==> accounted(
                s,
                step,
                replies,
                devices,
            )
        }),
    decreases replies.len(),
{
    if replies.len() > 0 {
        let rest = replies.drop_last();
        lemma_accounted(s, step, rest);
        law_numbers_are_kept(s, step, rest);
        let before = run(s, step, rest);
        let end = run(s, step, replies);
        lemma_devices_after(before.0, before.1, replies.last());
        if devices_of(end.0, end.1) is Some {
            lemma_accounted_after(s, step, replies);
        }
    }
}

proof fn lemma_accounted_after(s: StateView, step: StepView, replies: Seq<Reply>)
    requires
        replies.len() > 0,
        ({
            let before = run(s, step, replies.drop_last());
            let end = run(s, step, replies);
            &&& consistent(before.0)
            &&& fits(before.0, before.1)
            &&& !previews(before.1)
            &&& devices_of(before.0, before.1) matches Some(devices) ==> accounted(
                s,
                step,
                replies.drop_last(),
                devices,
            )
            &&& devices_of(end.0, end.1) is Some
        }),
    ensures
        accounted(
            s,
            step,
            replies,
            devices_of(run(s, step, replies).0, run(s, step, replies).1)->0,
        ),
{
    let before = run(s, step, replies.drop_last());
    lemma_devices_after(before.0, before.1, replies.last());
    match (before.1, replies.last()) {
        (StepView::Scan(purpose), Reply::Scanned(Ok(found))) => {
            lemma_scanned(s, step, replies, before.0, policy_for(before.0, purpose), found);
        },
        (
            StepView::Authorize { purpose, snapshot, index },
            Reply::Attempted(WriteAttempt::Written),
        ) => {
            lemma_written(s, step, replies, snapshot, index);
        },
        (StepView::Authorize { purpose, snapshot, index }, _) => {
            lemma_accounted_later(s, step, replies, snapshot.devices);
        },
        _ => {
            lemma_accounted_later(s, step, replies, before.0.devices);
        },
    }
}

/// Work that ends well records the devices that a scan found, no more and no fewer, in their
/// order, with what was found of each. What is recorded of a device's authorization is what was
/// found, or what was written to that device since, which is what was decided about it.
pub proof fn law_the_record_is_what_was_found(s: StateView, step: StepView, replies: Seq<Reply>)
    requires
        consistent(s),
        !writes(step),
        unfinished(step),
        !previews(step),
        run(s, step, replies).1 matches StepView::Done(Ok(_)),
    ensures
        accounted(s, step, replies, run(s, step, replies).0.devices),
{
    lemma_accounted(s, step, replies);
}

/// Where decisions are enforced and no device was gone, work that ends well leaves every device
/// that was decided to be allowed with the authorization, and every other one without.
pub proof fn law_devices_have_what_was_decided(s: StateView, step: StepView, replies: Seq<Reply>)
    requires
        consistent(s),
        s.config.mode == Mode::Enforce,
        !writes(step),
        unfinished(step),
        !previews(step),
        forall|i: int|
            0 <= i < replies.len() ==> match #[trigger] replies[i] {
                Reply::Attempted(WriteAttempt::NotOpened(error)) => error.kind
                    != IoErrorKind::NotFound && error.os_code != Some(19i32),
                Reply::Attempted(WriteAttempt::NotWritten(error)) => error.kind
                    != IoErrorKind::NotFound && error.os_code != Some(19i32),
                _ => true,
            },
        run(s, step, replies).1 matches StepView::Done(Ok(_)),
    ensures
        ({
            let end = run(s, step, replies).0;
            forall|i: int|
                0 <= i < end.devices.len() ==> (#[trigger] end.devices[i]).device.authorized
                    == Some(end.devices[i].decision.action == Action::Allow)
        }),
{
    assert forall|i: int| 0 <= i < replies.len() implies !found_gone(#[trigger] replies[i]) by {}
    law_decisions_are_enforced(s, step, replies);
    let end = run(s, step, replies).0;
    assert forall|i: int| 0 <= i < end.devices.len() implies (
    #[trigger] end.devices[i]).device.authorized == Some(
        end.devices[i].decision.action == Action::Allow,
    ) by {
        assert(settled(end.devices[i].device, end.devices[i].decision.action));
    }
}

/// Every device is decided about: with the action of its override where it has one, and else as
/// the policy in force says. The answer of work that ends well is these decisions, in order.
pub proof fn law_every_device_is_decided_about(s: StateView, step: StepView, replies: Seq<Reply>)
    requires
        consistent(s),
        fits(s, step),
        unfinished(step),
        !previews(step),
    ensures
        ({
            let end = run(s, step, replies);
            end.1 matches StepView::Done(Ok(decisions)) ==> {
                &&& decisions.len() == end.0.devices.len()
                &&& forall|i: int|
                    0 <= i < end.0.devices.len() ==> {
                        let state = #[trigger] end.0.devices[i];
                        &&& decisions[i] == state.decision
                        &&& end.0.overrides.contains_key(device_key(state.device))
                            ==> state.decision == (DecisionView {
                            device_id: state.device.id,
                            action: end.0.overrides[device_key(state.device)],
                            reason: "manual override"@,
                            rule: None,
                        })
                        &&& !end.0.overrides.contains_key(device_key(state.device))
                            ==> state.decision == policy_decision(end.0.policy, state.device)
                    }
            }
        }),
{
    law_answers_are_in_force(s, step, replies);
    let end = run(s, step, replies).0;
    if decisions_in_force(end) {
        assert forall|i: int| 0 <= i < end.devices.len() implies (
        #[trigger] end.devices[i]).decision == decision_about(
            end.overrides,
            end.policy,
            end.devices[i].device,
        ) by {}
    }
}

/// A refresh where nothing is enforced and controllers are kept takes one scan. It ends well where
/// there are numbers left, and it leaves the policy in force.
pub proof fn law_a_dry_refresh_takes_one_scan(s: StateView, found: Seq<UsbDeviceView>)
    requires
        consistent(s),
        s.config.mode == Mode::DryRun,
        s.config.controllers.authorized_default == AuthorizedDefault::Keep,
        s.next_id + found.len() <= u32::MAX,
    ensures
        ({
            let start = refresh_start(s);
            let end = run(s, start, seq![Reply::Scanned(Ok(found))]);
            &&& end.1 matches StepView::Done(Ok(_))
            &&& end.0.policy == s.policy
            &&& end.0.devices.len() == found.len()
            &&& forall|i: int|
                0 <= i < found.len() ==> (#[trigger] end.0.devices[i]).device == (UsbDeviceView {
                    id: end.0.devices[i].device.id,
                    ..found[i]
                })
        }),
{
    let start = refresh_start(s);
    let replies = seq![Reply::Scanned(Ok(found))];
    reveal_with_fuel(run, 2);
    assert(replies.drop_last() =~= Seq::<Reply>::empty());
    law_numbers_run_out(s, s.policy, found);
    lemma_few_new(s, found);
    let end = run(s, start, replies);
    lemma_numbering(s.ids, s.next_id, found);
    let given = numbering(s.ids, s.next_id, found)->0.devices;
    assert forall|i: int| 0 <= i < found.len() implies (#[trigger] end.0.devices[i]).device == (
    UsbDeviceView { id: end.0.devices[i].device.id, ..found[i] }) by {
        assert(end.0.devices[i].device == given[i]);
    }
}

pub proof fn lemma_few_new(s: StateView, found: Seq<UsbDeviceView>)
    ensures
        new_identities(s.ids, found).len() <= found.len(),
        new_identities(s.ids, found).finite(),
{
    let keys = found.map_values(|d: UsbDeviceView| device_key(d));
    keys.lemma_cardinality_of_set();
    vstd::seq_lib::seq_to_set_is_finite(keys);
    vstd::set_lib::lemma_len_subset(
        new_identities(s.ids, found),
        keys.to_set(),
    );
}

// ---- Reloads ---------------------------------------------------------------------------------

/// A reload, and a preview of one, read the policy file that the configuration names.
pub proof fn law_reloads_read_the_configured_file(s: StateView, preview: bool)
    ensures
        reload_start(s, preview) == (StepView::LoadPolicy { path: s.config.policy_path, preview }),
{
}

/// A policy can be put into force: it was in the file that was read, each of its rules is well
/// formed, and one of them lets a device in; or nothing is enforced, or the operator permits an
/// empty policy.
pub open spec fn may_come_into_force(s: StateView, reply: Reply, policy: PolicyView) -> bool {
    &&& reply matches Reply::Loaded(loaded) && match loaded {
        Loaded::Parsed(parsed) => policy == parsed@,
        Loaded::Malformed(_) => false,
        Loaded::Unreadable(error) => {
            &&& error.kind == IoErrorKind::NotFound
            &&& s.config.mode == Mode::DryRun || s.config.unsafe_allow_empty_policy
            &&& policy.rules.len() == 0 && policy.default == s.config.default_action
        },
    }
    &&& forall|i: int| 0 <= i < policy.rules.len() ==> well_formed(#[trigger] policy.rules[i])
    &&& s.config.mode == Mode::DryRun || s.config.unsafe_allow_empty_policy || exists|i: int|
        0 <= i < policy.rules.len() && (#[trigger] policy.rules[i]).action == Action::Allow
            && policy.rules[i].matcher.is_hub != Some(true)
}

/// A reload that ends well has put a policy into force that was in the file and may be.
pub proof fn law_reloads_put_the_file_into_force(s: StateView, replies: Seq<Reply>)
    requires
        run(s, reload_start(s, false), replies).1 matches StepView::Done(Ok(_)),
    ensures
        exists|n: int|
            0 <= n < replies.len() && may_come_into_force(
                s,
                #[trigger] replies[n],
                run(s, reload_start(s, false), replies).0.policy,
            ),
{
    law_reload_replaces_the_policy(s, replies);
    let policy = run(s, reload_start(s, false), replies).0.policy;
    assert(offered(s, replies, policy));
    let n = choose|n: int| 0 <= n < replies.len() && offers(s, #[trigger] replies[n], policy);
    if let Reply::Loaded(loaded) = replies[n] {
        law_loaded_policies(s.config.policy_path, loaded, s.config);
        law_policies_to_start_with(policy, s.config);
    }
    assert(may_come_into_force(s, replies[n], policy));
}

/// A device that cannot be written to while a reload is carried out makes the daemon go back: the
/// devices are scanned again, and decided about by the policy that is in force still.
pub proof fn law_a_failed_reload_goes_back(
    s: StateView,
    policy: PolicyView,
    snapshot: SnapshotView,
    index: int,
    attempt: WriteAttempt,
)
    requires
        match attempt {
            WriteAttempt::Written => false,
            WriteAttempt::NotOpened(error) => error.kind != IoErrorKind::NotFound && error.os_code
                != Some(19i32),
            WriteAttempt::NotWritten(error) => error.kind != IoErrorKind::NotFound && error.os_code
                != Some(19i32),
        },
    ensures
        ({
            let step = StepView::Authorize { purpose: PurposeView::Reload(policy), snapshot, index };
            let after = respond(s, step, Reply::Attempted(attempt));
            &&& after.0 == s
            &&& after.1 matches StepView::Scan(purpose) && purpose is Rollback && policy_for(
                s,
                purpose,
            ) == s.policy
        }),
{
}

proof fn lemma_went_back(
    s: StateView,
    cause: ErrorView,
    found: Seq<UsbDeviceView>,
    replies: Seq<Reply>,
)
    requires
        consistent(s),
        s.config.mode == Mode::Enforce,
        replies.len() > 0,
        replies[0] == Reply::Scanned(Ok(found)),
        s.next_id + found.len() <= u32::MAX,
        forall|i: int|
            0 < i < replies.len() ==> #[trigger] replies[i] == Reply::Attempted(
                WriteAttempt::Written,
            ),
    ensures
        ({
            let step = StepView::Scan(PurposeView::Rollback(cause));
            let end = run(s, step, replies);
            &&& consistent(end.0)
            &&& fits(end.0, end.1)
            &&& end.0.config == s.config
            &&& end.0.policy == s.policy
            &&& match end.1 {
                StepView::Authorize { purpose, snapshot, index } => {
                    &&& purpose == PurposeView::Rollback(cause)
                    &&& settled_so_far(end.1)
                    &&& index + 1 >= replies.len()
                    &&& snapshot.devices.len() == found.len()
                },
                StepView::Done(Err(error)) => {
                    &&& error == cause
                    &&& all_settled(end.0.devices)
                },
                _ => false,
            }
        }),
    decreases replies.len(),
{
    let step = StepView::Scan(PurposeView::Rollback(cause));
    let rest = replies.drop_last();
    reveal_with_fuel(run, 2);
    law_configuration_is_kept(s, step, replies);
    law_numbers_are_kept(s, step, replies);
    if replies.len() == 1 {
        assert(rest =~= Seq::<Reply>::empty());
        law_numbers_run_out(s, s.policy, found);
        lemma_few_new(s, found);
        lemma_snapshot(s, s.policy, found);
        let snapshot = snapshot_of(s, s.policy, found)->Ok_0;
        lemma_next_unsettled(snapshot.devices, 0);
    } else {
        assert(rest[0] == replies[0]);
        assert forall|i: int| 0 < i < rest.len() implies #[trigger] rest[i] == Reply::Attempted(
            WriteAttempt::Written,
        ) by {
            assert(rest[i] == replies[i]);
        }
        lemma_went_back(s, cause, found, rest);
        assert(replies[replies.len() - 1] == Reply::Attempted(WriteAttempt::Written));
        let before = run(s, step, rest);
        if let StepView::Authorize { purpose, snapshot, index } = before.1 {
            let now = with_authorized(snapshot, index);
            lemma_with_authorized(before.0, policy_for(before.0, purpose), snapshot, index);
            lemma_next_unsettled(now.devices, index + 1);
            let last = next_unsettled(now.devices, index + 1);
            assert forall|j: int| 0 <= j < last implies settled(
                (#[trigger] now.devices[j]).device,
                now.devices[j].decision.action,
            ) by {
                if j < index {
                    assert(now.devices[j] == snapshot.devices[j]);
                }
            }
        }
    }
}

/// A reload that failed is undone: once the devices were scanned again and every write succeeded,
/// at most one for each device, the work ends with the reason why the reload failed. By then the
/// policy in force is the former one, and every device has the authorization that goes with the
/// decision about it.
pub proof fn law_a_failed_reload_is_undone(
    s: StateView,
    cause: ErrorView,
    found: Seq<UsbDeviceView>,
    replies: Seq<Reply>,
)
    requires
        consistent(s),
        s.config.mode == Mode::Enforce,
        replies.len() == found.len() + 1,
        replies[0] == Reply::Scanned(Ok(found)),
        s.next_id + found.len() <= u32::MAX,
        forall|i: int|
            0 < i < replies.len() ==> #[trigger] replies[i] == Reply::Attempted(
                WriteAttempt::Written,
            ),
    ensures
        ({
            let end = run(s, StepView::Scan(PurposeView::Rollback(cause)), replies);
            &&& end.1 matches StepView::Done(Err(error)) && error == cause
            &&& end.0.policy == s.policy
            &&& forall|i: int|
                0 <= i < end.0.devices.len() ==> (#[trigger] end.0.devices[i]).device.authorized
                    == Some(end.0.devices[i].decision.action == Action::Allow)
        }),
{
    lemma_went_back(s, cause, found, replies);
    let end = run(s, StepView::Scan(PurposeView::Rollback(cause)), replies);
    assert forall|i: int| 0 <= i < end.0.devices.len() implies (
    #[trigger] end.0.devices[i]).device.authorized == Some(
        end.0.devices[i].decision.action == Action::Allow,
    ) by {
        assert(settled(end.0.devices[i].device, end.0.devices[i].decision.action));
    }
}

} // verus!
