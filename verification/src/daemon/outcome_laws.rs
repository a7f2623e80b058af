//! How refreshes, reloads, previews and overrides come out, told by what happened.
use super::changes::DeviceSummaryView;
use super::identity::device_key;
use super::journal::{controller_entries, JournalEntryView};
use super::laws::{
    fits, law_overrides_stay_with_their_devices, lemma_next_unsettled, respond, run, unfinished,
    Reply,
};
use super::number_laws::law_numbers_run_out;
use super::override_laws::{concluded, known, law_override_takes_effect};
use super::overrides::{clear_requested, override_requested, OverrideStepView};
use super::report_laws::{is_among, same_device};
use super::state::{
    consistent, device_index, has_id, lemma_numbering, numbering, present, present_keys,
    SnapshotView, StateView,
};
use super::steps::{
    refresh_start, reload_start, start_config, with_authorized, PurposeView, StepView,
};
use super::work_laws::lemma_few_new;
use crate::config::{AuthorizedDefault, Loaded, Mode};
use crate::error::{error_text, ErrorView, IoErrorKind};
use crate::policy::laws::law_decision_ignores_authorization;
use crate::policy::start_laws::{law_loaded_policies, law_policies_to_start_with, well_formed};
use crate::policy::{policy_decision, Action, DecisionView, Policy};
use crate::sequence::lemma_first_index;
use crate::sysfs::authorization::WriteAttempt;
use crate::sysfs::controllers::{
    desired_value, differing, ControllerAuthorizationUpdateView, ControllerAuthorizationView,
};
use crate::sysfs::laws::law_only_differing_controllers_are_set;
use crate::sysfs::UsbDeviceView;
use crate::text::decimal;
use vstd::prelude::*;

verus! {

/// A device was gone when it was to be written to.
pub open spec fn gone(attempt: WriteAttempt) -> bool {
    match attempt {
        WriteAttempt::Written => false,
        WriteAttempt::NotOpened(error) => error.kind == IoErrorKind::NotFound || error.os_code
            == Some(19i32),
        WriteAttempt::NotWritten(error) => error.kind == IoErrorKind::NotFound || error.os_code
            == Some(19i32),
    }
}

// ---- Controllers -----------------------------------------------------------------------------

/// A refresh, and a reload once its policy was found fit, begin with reading the controllers,
/// unless these are to be kept; then they begin with the scan.
pub proof fn law_work_begins_with_the_controllers(s: StateView, policy: Policy)
    requires
        forall|k: int| 0 <= k < policy@.rules.len() ==> well_formed(#[trigger] policy@.rules[k]),
        s.config.mode == Mode::DryRun || s.config.unsafe_allow_empty_policy || exists|i: int|
            0 <= i < policy@.rules.len() && (#[trigger] policy@.rules[i]).action == Action::Allow
                && policy@.rules[i].matcher.is_hub != Some(true),
    ensures
        ({
            let kept = s.config.controllers.authorized_default == AuthorizedDefault::Keep;
            let reload = PurposeView::Reload(policy@);
            &&& kept ==> refresh_start(s) == StepView::Scan(PurposeView::Refresh)
            &&& !kept ==> refresh_start(s) == StepView::ReadControllers(PurposeView::Refresh)
            &&& respond(s, reload_start(s, false), Reply::Loaded(Loaded::Parsed(policy))) == (
                s,
                if kept {
                    StepView::Scan(reload)
                } else {
                    StepView::ReadControllers(reload)
                },
            )
        }),
{
    let loaded = Loaded::Parsed(policy);
    law_loaded_policies(s.config.policy_path, loaded, s.config);
    law_policies_to_start_with(policy@, s.config);
}

/// The controllers that have another value than the configured one are set where decisions are
/// enforced, and only logged where they are not. The scan comes next in either case. Controllers
/// that cannot be read, or set, end the work with that error.
pub proof fn law_controllers_are_seen_to_first(
    s: StateView,
    purpose: PurposeView,
    found: Seq<ControllerAuthorizationView>,
    error: ErrorView,
)
    requires
        s.config.controllers.authorized_default != AuthorizedDefault::Keep,
    ensures
        ({
            let wanted = if s.config.controllers.authorized_default == AuthorizedDefault::All {
                seq!['1']
            } else {
                seq!['0']
            };
            let step = StepView::ReadControllers(purpose);
            let after = respond(s, step, Reply::Controllers(Ok(found)));
            let all_set = forall|i: int|
                0 <= i < found.len() ==> (#[trigger] found[i]).current == wanted;
            &&& respond(s, step, Reply::Controllers(Err(error))) == (s, StepView::Done(Err(error)))
            &&& s.config.mode == Mode::DryRun ==> after.1 == StepView::Scan(purpose)
            &&& s.config.mode == Mode::Enforce && all_set ==> after.1 == StepView::Scan(purpose)
            &&& s.config.mode == Mode::Enforce && !all_set ==> after.0 == s && (after.1 matches
                StepView::WriteController { purpose: p, desired, pending, next } && p == purpose
                && desired == wanted && next == 0 && forall|c: ControllerAuthorizationView| #[trigger]
                pending.contains(c) <==> found.contains(c) && c.current != wanted)
        }),
{
    let default = s.config.controllers.authorized_default;
    reveal_strlit("0");
    reveal_strlit("1");
    assert("0"@ =~= seq!['0']);
    assert("1"@ =~= seq!['1']);
    let wanted = desired_value(default)->0;
    let pending = differing(found, wanted);
    assert forall|c: ControllerAuthorizationView| #[trigger] pending.contains(c) <==> found.contains(
        c,
    ) && c.current != wanted by {
        law_only_differing_controllers_are_set(found, wanted, c);
    }
    if forall|i: int| 0 <= i < found.len() ==> (#[trigger] found[i]).current == wanted {
        if pending.len() > 0 {
            assert(pending.contains(pending[0]));
            let i = choose|i: int| 0 <= i < found.len() && found[i] == pending[0];
            assert(found[i].current == wanted);
        }
    } else {
        let i = choose|i: int| 0 <= i < found.len() && (#[trigger] found[i]).current != wanted;
        assert(found.contains(found[i]));
        assert(pending.contains(found[i]));
    }
}

/// Of every controller it is logged what was set, or would be.
pub proof fn law_controllers_are_logged(
    updates: Seq<ControllerAuthorizationUpdateView>,
    applied: bool,
    i: int,
)
    requires
        0 <= i < updates.len(),
    ensures
        controller_entries(updates, applied).len() == updates.len(),
        controller_entries(updates, applied)[i] == (JournalEntryView::Controller {
            update: updates[i],
            applied,
        }),
{
}

// ---- Writing ---------------------------------------------------------------------------------

/// A device that is gone by the time that it is written to is passed over: that is logged, and
/// the work goes on with the devices behind it or ends as if the device had been written to, but
/// nothing is recorded of its authorization.
pub proof fn law_devices_that_are_gone_are_passed_over(
    s: StateView,
    purpose: PurposeView,
    snapshot: SnapshotView,
    index: int,
    attempt: WriteAttempt,
)
    requires
        0 <= index < snapshot.devices.len(),
        gone(attempt),
        purpose is Refresh || purpose is Reload,
    ensures
        ({
            let step = StepView::Authorize { purpose, snapshot, index };
            let after = respond(s, step, Reply::Attempted(attempt));
            let d = snapshot.devices[index].device;
            &&& match after.1 {
                StepView::Authorize { purpose: p, snapshot: now, index: next } => {
                    &&& p == purpose
                    &&& now == snapshot
                    &&& next > index
                },
                StepView::Done(Ok(_)) => after.0.devices == snapshot.devices,
                _ => false,
            }
            &&& after.0.journal.len() > s.journal.len()
            &&& after.0.journal[s.journal.len() as int] == JournalEntryView::DeviceGone(
                DeviceSummaryView {
                    id: d.id,
                    port_path: d.port_path,
                    vendor_id: d.vendor_id,
                    product_id: d.product_id,
                    product_name: d.product_name,
                    serial: d.serial,
                    is_hub: d.is_hub,
                },
            )
        }),
{
    lemma_next_unsettled(snapshot.devices, index + 1);
}

/// A device that was written to is recorded with the authorization that was decided, and the work
/// goes on with the next device that has another one, or ends well.
pub proof fn law_devices_are_written_one_by_one(
    s: StateView,
    purpose: PurposeView,
    snapshot: SnapshotView,
    index: int,
)
    requires
        0 <= index < snapshot.devices.len(),
        purpose is Refresh || purpose is Reload,
    ensures
        ({
            let step = StepView::Authorize { purpose, snapshot, index };
            let after = respond(s, step, Reply::Attempted(WriteAttempt::Written));
            let wanted = Some(snapshot.devices[index].decision.action == Action::Allow);
            match after.1 {
                StepView::Authorize { purpose: p, snapshot: now, index: next } => {
                    &&& p == purpose
                    &&& index < next < now.devices.len()
                    &&& now.devices[index].device.authorized == wanted
                    &&& now.devices[next].device.authorized != Some(
                        now.devices[next].decision.action == Action::Allow,
                    )
                    &&& forall|j: int|
                        index < j < next ==> (#[trigger] now.devices[j]).device.authorized == Some(
                            now.devices[j].decision.action == Action::Allow,
                        )
                },
                StepView::Done(Ok(_)) => {
                    &&& after.0.devices[index].device.authorized == wanted
                    &&& forall|j: int|
                        index < j < after.0.devices.len() ==> (
                        #[trigger] after.0.devices[j]).device.authorized == Some(
                            after.0.devices[j].decision.action == Action::Allow,
                        )
                },
                _ => false,
            }
        }),
{
    lemma_next_unsettled(with_authorized(snapshot, index).devices, index + 1);
}

/// A failure to write, or to scan, ends a refresh with that error and changes nothing.
pub proof fn law_a_failed_refresh_changes_nothing(
    s: StateView,
    snapshot: SnapshotView,
    index: int,
    attempt: WriteAttempt,
    error: ErrorView,
)
    requires
        !gone(attempt),
        attempt != WriteAttempt::Written,
    ensures
        ({
            let step = StepView::Authorize { purpose: PurposeView::Refresh, snapshot, index };
            let after = respond(s, step, Reply::Attempted(attempt));
            &&& after.0 == s
            &&& after.1 matches StepView::Done(Err(told)) && match attempt {
                WriteAttempt::NotOpened(source) => told matches ErrorView::Io { context, source: by }
                    && by == source@,
                WriteAttempt::NotWritten(source) => told matches ErrorView::Io {
                    context,
                    source: by,
                } && by == source@,
                WriteAttempt::Written => false,
            }
        }),
        respond(s, StepView::Scan(PurposeView::Refresh), Reply::Scanned(Err(error))) == (
            s,
            StepView::Done(Err(error)),
        ),
{
}

/// A rollback that fails is answered with both reasons.
pub proof fn law_failed_rollbacks_tell_both_reasons(s: StateView, cause: ErrorView, error: ErrorView)
    ensures
        respond(s, StepView::Scan(PurposeView::Rollback(cause)), Reply::Scanned(Err(error))) == (
            s,
            StepView::Done(
                Err(
                    ErrorView::Policy(
                        "reload failed after partial apply: "@ + error_text(cause)
                            + "; rollback failed: "@ + error_text(error),
                    ),
                ),
            ),
        ),
{
}

/// Where nothing is enforced it is logged of every device what would be done to it.
pub proof fn law_dry_scans_log_what_would_be_done(
    s: StateView,
    found: Seq<UsbDeviceView>,
    i: int,
)
    requires
        consistent(s),
        s.config.mode == Mode::DryRun,
        s.next_id + found.len() <= u32::MAX,
        0 <= i < found.len(),
    ensures
        ({
            let end = respond(
                s,
                StepView::Scan(PurposeView::Refresh),
                Reply::Scanned(Ok(found)),
            ).0;
            let d = end.devices[i].device;
            &&& end.journal.len() >= s.journal.len() + found.len()
            &&& end.journal[s.journal.len() + i] == (JournalEntryView::Preview {
                device: DeviceSummaryView {
                    id: d.id,
                    port_path: found[i].port_path,
                    vendor_id: found[i].vendor_id,
                    product_id: found[i].product_id,
                    product_name: found[i].product_name,
                    serial: found[i].serial,
                    is_hub: found[i].is_hub,
                },
                action: end.devices[i].decision.action,
            })
        }),
{
    law_numbers_run_out(s, s.policy, found);
    lemma_few_new(s, found);
    lemma_numbering(s.ids, s.next_id, found);
    let given = numbering(s.ids, s.next_id, found)->0.devices;
    assert(given[i] == (UsbDeviceView { id: given[i].id, ..found[i] }));
}

// ---- Reloads and previews --------------------------------------------------------------------

/// A policy file that cannot be loaded, or that holds a policy that the daemon may not start with,
/// ends a reload before anything else is done: nothing changes.
pub proof fn law_unfit_policies_are_not_put_into_force(s: StateView, loaded: Loaded<Policy>)
    requires
        match loaded {
            Loaded::Parsed(policy) => (exists|i: int|
                0 <= i < policy@.rules.len() && !well_formed(#[trigger] policy@.rules[i])) || (
            s.config.mode == Mode::Enforce && !s.config.unsafe_allow_empty_policy && forall|i: int|
                0 <= i < policy@.rules.len() ==> (#[trigger] policy@.rules[i]).action
                    == Action::Block || policy@.rules[i].matcher.is_hub == Some(true)),
            Loaded::Malformed(_) => true,
            Loaded::Unreadable(error) => error.kind != IoErrorKind::NotFound || (s.config.mode
                == Mode::Enforce && !s.config.unsafe_allow_empty_policy),
        },
    ensures
        ({
            let after = respond(s, reload_start(s, false), Reply::Loaded(loaded));
            &&& after.0 == s
            &&& after.1 matches StepView::Done(Err(_))
        }),
{
    law_loaded_policies(s.config.policy_path, loaded, s.config);
    if let Loaded::Parsed(policy) = loaded {
        law_policies_to_start_with(policy@, s.config);
    }
}

/// A preview tells what a reload would decide about the devices that are found, by the policy that
/// was loaded and with the overrides that there are, whatever is enforced. A policy that lets no
/// device in is previewed too.
pub proof fn law_previews_tell_what_a_reload_would_decide(
    s: StateView,
    policy: Policy,
    found: Seq<UsbDeviceView>,
    i: int,
)
    requires
        consistent(s),
        forall|k: int| 0 <= k < policy@.rules.len() ==> well_formed(#[trigger] policy@.rules[k]),
        s.next_id + found.len() <= u32::MAX,
        0 <= i < found.len(),
    ensures
        ({
            let replies = seq![Reply::Loaded(Loaded::Parsed(policy)), Reply::Scanned(Ok(found))];
            let end = run(s, reload_start(s, true), replies);
            &&& end.1 matches StepView::Done(Ok(decisions)) && {
                &&& decisions.len() == found.len()
                &&& s.overrides.contains_key(device_key(found[i])) ==> decisions[i].action
                    == s.overrides[device_key(found[i])] && decisions[i].reason
                    == "manual override"@ && decisions[i].rule is None
                &&& !s.overrides.contains_key(device_key(found[i])) ==> {
                    let decision = policy_decision(policy@, found[i]);
                    &&& decisions[i].action == decision.action
                    &&& decisions[i].reason == decision.reason
                    &&& decisions[i].rule == decision.rule
                }
            }
            &&& end.0.devices == s.devices
            &&& end.0.policy == s.policy
            &&& end.0.overrides == s.overrides
            &&& end.0.ids == s.ids
        }),
{
    let loaded = Loaded::Parsed(policy);
    let replies = seq![Reply::Loaded(loaded), Reply::Scanned(Ok(found))];
    reveal_with_fuel(run, 3);
    assert(replies.drop_last() =~= seq![Reply::Loaded(loaded)]);
    assert(replies.drop_last().drop_last() =~= Seq::<Reply>::empty());
    law_loaded_policies(s.config.policy_path, loaded, s.config);
    law_policies_to_start_with(policy@, start_config(s, true));
    law_numbers_run_out(s, policy@, found);
    lemma_few_new(s, found);
    lemma_numbering(s.ids, s.next_id, found);
    let given = numbering(s.ids, s.next_id, found)->0.devices;
    assert(given[i] == (UsbDeviceView { id: given[i].id, ..found[i] }));
    law_decision_ignores_authorization(
        policy@,
        found[i],
        given[i].id,
        found[i].authorized,
        found[i].sysfs_path,
    );
}

/// A reload where nothing is enforced and controllers are kept takes the file and one scan. It puts
/// the policy of the file into force.
pub proof fn law_a_dry_reload_takes_the_file_and_one_scan(
    s: StateView,
    policy: Policy,
    found: Seq<UsbDeviceView>,
)
    requires
        consistent(s),
        s.config.mode == Mode::DryRun,
        s.config.controllers.authorized_default == AuthorizedDefault::Keep,
        forall|k: int| 0 <= k < policy@.rules.len() ==> well_formed(#[trigger] policy@.rules[k]),
        s.next_id + found.len() <= u32::MAX,
    ensures
        ({
            let replies = seq![Reply::Loaded(Loaded::Parsed(policy)), Reply::Scanned(Ok(found))];
            let end = run(s, reload_start(s, false), replies);
            &&& end.1 matches StepView::Done(Ok(_))
            &&& end.0.policy == policy@
            &&& end.0.devices.len() == found.len()
        }),
{
    let loaded = Loaded::Parsed(policy);
    let replies = seq![Reply::Loaded(loaded), Reply::Scanned(Ok(found))];
    reveal_with_fuel(run, 3);
    assert(replies.drop_last() =~= seq![Reply::Loaded(loaded)]);
    assert(replies.drop_last().drop_last() =~= Seq::<Reply>::empty());
    law_loaded_policies(s.config.policy_path, loaded, s.config);
    law_policies_to_start_with(policy@, s.config);
    law_numbers_run_out(s, policy@, found);
    lemma_few_new(s, found);
    lemma_numbering(s.ids, s.next_id, found);
}

// ---- Overrides -------------------------------------------------------------------------------

/// A device that was overridden is recorded with the action that was asked for, as a manual
/// decision, and with the authorization that goes with it where decisions are enforced. Nothing
/// else is recorded otherwise than before, of this device or of any other.
pub proof fn law_overrides_are_recorded(s: StateView, id: u32, action: Action, j: int)
    requires
        consistent(s),
        known(s, id),
        0 <= j < s.devices.len(),
    ensures
        ({
            let i = device_index(s.devices, id);
            let end = concluded(override_requested(s, id, action), WriteAttempt::Written);
            let before = s.devices[j];
            let after = end.0.devices[j];
            &&& end.0.devices.len() == s.devices.len()
            &&& j != i ==> after == before
            &&& j == i ==> after.decision == (DecisionView {
                device_id: id,
                action,
                reason: "manual override"@,
                rule: None,
            })
            &&& j == i && s.config.mode == Mode::Enforce ==> after.device == (UsbDeviceView {
                authorized: Some(action == Action::Allow),
                ..before.device
            })
            &&& j == i && s.config.mode == Mode::DryRun ==> after.device == before.device
            &&& end.1 matches OverrideStepView::Done(Ok(decision)) && decision.action == action
                && decision.device_id == id
        }),
{
    lemma_first_index(s.devices, has_id(id));
    law_override_takes_effect(s, id, action);
}

/// A device whose override was cleared is recorded with what the policy decides, and with the
/// authorization that goes with it where decisions are enforced.
pub proof fn law_cleared_devices_are_recorded(s: StateView, id: u32, j: int)
    requires
        consistent(s),
        known(s, id),
        0 <= j < s.devices.len(),
    ensures
        ({
            let i = device_index(s.devices, id);
            let end = concluded(clear_requested(s, id), WriteAttempt::Written);
            let before = s.devices[j];
            let after = end.0.devices[j];
            let decision = policy_decision(s.policy, s.devices[i].device);
            &&& end.0.devices.len() == s.devices.len()
            &&& j != i ==> after == before
            &&& j == i ==> after.decision == decision
            &&& j == i && s.config.mode == Mode::Enforce ==> after.device == (UsbDeviceView {
                authorized: Some(decision.action == Action::Allow),
                ..before.device
            })
            &&& j == i && s.config.mode == Mode::DryRun ==> after.device == before.device
            &&& end.1 matches OverrideStepView::Done(Ok(told)) && told == decision
        }),
{
    lemma_first_index(s.devices, has_id(id));
}

/// A device that is gone when it is overridden is told so, and nothing changes. When its override
/// is cleared, the override is forgotten all the same.
pub proof fn law_overrides_of_devices_that_are_gone(
    s: StateView,
    id: u32,
    action: Action,
    attempt: WriteAttempt,
)
    requires
        s.config.mode == Mode::Enforce,
        known(s, id),
        gone(attempt),
    ensures
        concluded(override_requested(s, id, action), attempt) == (
            s,
            OverrideStepView::Done(
                Err(
                    ErrorView::Protocol(
                        "device id "@ + decimal(id as nat) + " disappeared before "@
                            + "manual override could be applied"@,
                    ),
                ),
            ),
        ),
        ({
            let device = s.devices[device_index(s.devices, id)].device;
            let end = concluded(clear_requested(s, id), attempt);
            &&& end.0 == (StateView {
                overrides: s.overrides.remove(device_key(device)),
                ..s
            })
            &&& end.1 == OverrideStepView::Done(
                Err(
                    ErrorView::Protocol(
                        "device id "@ + decimal(id as nat) + " disappeared before "@
                            + "policy could be reapplied"@,
                    ),
                ),
            )
        }),
{
}

/// Whatever happens, an override lasts exactly as long as a device is there that agrees with the
/// overridden one in sysfs path, vendor id, product id and serial, and it keeps its action.
pub proof fn law_overrides_last_as_long_as_the_device(
    s: StateView,
    step: StepView,
    replies: Seq<Reply>,
    d: UsbDeviceView,
)
    requires
        consistent(s),
        fits(s, step),
        unfinished(step),
    ensures
        ({
            let end = run(s, step, replies).0;
            &&& end.overrides.contains_key(device_key(d)) <==> s.overrides.contains_key(
                device_key(d),
            ) && is_among(d, end.devices)
            &&& end.overrides.contains_key(device_key(d)) ==> end.overrides[device_key(d)]
                == s.overrides[device_key(d)]
        }),
{
    law_overrides_stay_with_their_devices(s, step, replies);
    let end = run(s, step, replies).0;
    let key = device_key(d);
    assert(present_keys(end.devices).contains(key) == present(end.devices, key));
    if is_among(d, end.devices) {
        let i = choose|i: int|
            0 <= i < end.devices.len() && same_device((#[trigger] end.devices[i]).device, d);
        assert(device_key(end.devices[i].device) == key);
    }
    if present(end.devices, key) {
        let i = choose|i: int|
            0 <= i < end.devices.len() && device_key((#[trigger] end.devices[i]).device) == key;
        assert(same_device(end.devices[i].device, d));
    }
}

} // verus!
