//! What the daemon answers, how it starts and ends, and how it takes its socket into use.
use super::override_laws::known;
use super::overrides::{clear_requested, override_requested};
use super::requests::{
    apply_answer, clear_answer, decisions_answer, invalid_answer, request_handled, HandlingView,
};
use super::service::{
    daemon_respond, daemon_start, wait_outcome, Activity, Chore, DaemonReply, DaemonStepView,
    Readiness, Source, WaitStepView,
};
use super::socket::{
    cleanup_failure, existence_known, socket_start, task_performed, SocketStepView, SocketTask,
    SocketView,
};
use super::state::{consistent, device_index, new_state, StateView};
use super::steps::{captured, wants_restore, StepView};
use crate::config::{ConfigView, Mode};
use crate::control::{Request, ResponseView};
use crate::error::{error_text, ErrorView, IoError, IoErrorKind};
use crate::path::parent_path;
use crate::policy::{policy_decision, Action, DecisionView, PolicyView};
use crate::sysfs::controllers::ControllerAuthorizationStateView;
use crate::text::decimal;
use vstd::prelude::*;

verus! {

// ---- Requests --------------------------------------------------------------------------------

/// The status tells the mode, how many devices are there, how many are overridden, and the two
/// files. The list of devices is all of them, as they are recorded.
pub proof fn law_queries_tell_the_state(s: StateView)
    ensures
        request_handled(s, Request::Status) == (
            s,
            HandlingView::Answer(
                ResponseView::Status {
                    mode: s.config.mode,
                    device_count: s.devices.len(),
                    override_count: s.overrides.dom().len(),
                    socket_path: s.config.socket_path,
                    policy_path: s.config.policy_path,
                },
            ),
        ),
        request_handled(s, Request::ListDevices) == (
            s,
            HandlingView::Answer(ResponseView::Devices { devices: s.devices }),
        ),
        request_handled(s, Request::Reload) == (
            s,
            HandlingView::Decide(
                StepView::LoadPolicy { path: s.config.policy_path, preview: false },
            ),
        ),
        request_handled(s, Request::DryRunReload) == (
            s,
            HandlingView::Decide(
                StepView::LoadPolicy { path: s.config.policy_path, preview: true },
            ),
        ),
{
}

/// To allow or block a device where decisions are enforced takes one write, to the device that
/// goes by the number, of the action that was asked for. Nothing is recorded before.
pub proof fn law_overrides_take_one_write(s: StateView, id: u32, action: Action)
    requires
        s.config.mode == Mode::Enforce,
        known(s, id),
    ensures
        ({
            let device = s.devices[device_index(s.devices, id)].device;
            &&& request_handled(s, Request::Apply { id, action }).0 == s
            &&& request_handled(s, Request::Apply { id, action }).1 matches HandlingView::Apply {
                id: number,
                action: asked,
                step,
            } && number == id && asked == action && step.device == device && step.decision == (
            DecisionView {
                device_id: device.id,
                action,
                reason: "manual override"@,
                rule: None,
            })
            &&& request_handled(s, Request::ClearOverride { id }).0 == s
            &&& request_handled(s, Request::ClearOverride { id }).1 matches HandlingView::Clear {
                id: number,
                step,
            } && number == id && step.device == device && step.decision == policy_decision(
                s.policy,
                device,
            )
        }),
{
}

/// Where nothing is enforced, overrides take no write, and are answered at once.
pub proof fn law_dry_overrides_write_nothing(s: StateView, id: u32, action: Action)
    requires
        s.config.mode == Mode::DryRun,
    ensures
        request_handled(s, Request::Apply { id, action }).1 is Answer,
        request_handled(s, Request::ClearOverride { id }).1 is Answer,
        override_requested(s, id, action).1 is Done,
        clear_requested(s, id).1 is Done,
{
}

/// An answer says what was done to which device, or what went wrong.
pub proof fn law_answers(
    id: u32,
    action: Action,
    decision: DecisionView,
    decisions: Seq<DecisionView>,
    error: ErrorView,
    message: Seq<char>,
)
    ensures
        apply_answer(id, action, Ok(decision)) == (ResponseView::Done {
            message: (if action == Action::Allow {
                "allow"@
            } else {
                "block"@
            }) + " device "@ + decimal(id as nat) + " with manual override"@,
        }),
        clear_answer(id, Ok(decision)) == (ResponseView::Done {
            message: "cleared manual override for device "@ + decimal(id as nat)
                + "; policy now "@ + (if decision.action == Action::Allow {
                "allow"@
            } else {
                "block"@
            }),
        }),
        decisions_answer(Ok(decisions)) == (ResponseView::Decisions { decisions }),
        apply_answer(id, action, Err(error)) == (ResponseView::Error {
            message: error_text(error),
        }),
        clear_answer(id, Err(error)) == (ResponseView::Error { message: error_text(error) }),
        decisions_answer(Err(error)) == (ResponseView::Error { message: error_text(error) }),
        invalid_answer(message) == (ResponseView::Error {
            message: "invalid control request: "@ + message,
        }),
{
}

// ---- The life of the daemon ------------------------------------------------------------------

/// A new daemon has no devices and no overrides, gives its first device the number one, and has
/// nothing to log or to put back.
pub proof fn law_new_daemons_know_nothing(config: ConfigView, policy: PolicyView)
    ensures
        ({
            let s = new_state(config, policy);
            &&& s.config == config
            &&& s.policy == policy
            &&& s.devices.len() == 0
            &&& s.overrides.dom().len() == 0
            &&& s.ids.dom().len() == 0
            &&& s.next_id == 1
            &&& s.restore.len() == 0
            &&& s.journal.len() == 0
            &&& consistent(s)
        }),
{
}

/// What controllers are put back to is kept exactly where the configuration asks for that and
/// decisions are enforced. That they could not be read is a failure only then.
pub proof fn law_controllers_are_captured(
    s: StateView,
    states: Seq<ControllerAuthorizationStateView>,
    error: ErrorView,
)
    ensures
        s.config.controllers.restore_on_shutdown && s.config.mode == Mode::Enforce ==> {
            &&& captured(s, Ok(states)).0.restore == states
            &&& captured(s, Ok(states)).1 is None
            &&& captured(s, Err(error)) == (s, Some(error))
        },
        !(s.config.controllers.restore_on_shutdown && s.config.mode == Mode::Enforce) ==> captured(
            s,
            Ok(states),
        ) == (s, None::<ErrorView>) && captured(s, Err(error)) == (s, None::<ErrorView>),
        wants_restore(s) <==> s.config.controllers.restore_on_shutdown && s.config.mode
            == Mode::Enforce,
        captured(s, Ok(states)).0 == (StateView {
            restore: captured(s, Ok(states)).0.restore,
            ..s
        }),
{
}

/// What has to happen for a daemon to be ready: its controllers are read first, where they are to
/// be put back, then the socket is taken into use and made not to block, the source of events is
/// opened, the devices are brought in line, and signals are taken. Only then it waits.
pub proof fn law_the_daemon_starts_in_order(s: StateView)
    ensures
        ({
            let none = Activity { shutdown: false, control: false, usb_event: false };
            let capture = DaemonStepView::Do(Chore::CaptureControllers, none);
            let bind = DaemonStepView::Do(Chore::BindSocket, none);
            let open = DaemonStepView::Do(Chore::OpenMonitor, none);
            let refresh = DaemonStepView::Do(Chore::FirstRefresh, none);
            let signals = DaemonStepView::Do(Chore::InstallSignals, none);
            let well = DaemonReply::Done(None);
            &&& daemon_start(s) == (if s.config.controllers.restore_on_shutdown && s.config.mode
                == Mode::Enforce {
                capture
            } else {
                bind
            })
            &&& daemon_respond(capture, well) == bind
            &&& daemon_respond(bind, well) == DaemonStepView::Configure
            &&& daemon_respond(DaemonStepView::Configure, DaemonReply::Configured(Ok(()))) == open
            &&& daemon_respond(open, well) == refresh
            &&& daemon_respond(refresh, well) == signals
            &&& daemon_respond(signals, well) == DaemonStepView::Wait
        }),
{
}

/// Whatever fails ends the daemon with that error, save a client that could not be served. The
/// socket is removed, and the controllers are put back, exactly where the daemon had taken the
/// socket into use and made it ready.
pub proof fn law_failures_end_the_daemon(
    chore: Chore,
    activity: Activity,
    source: Source,
    error: ErrorView,
)
    ensures
        chore != Chore::Serve ==> daemon_respond(
            DaemonStepView::Do(chore, activity),
            DaemonReply::Done(Some(error)),
        ) == (DaemonStepView::Exit {
            failure: Some(error),
            clean_up: chore != Chore::CaptureControllers && chore != Chore::BindSocket,
        }),
        daemon_respond(DaemonStepView::Wait, DaemonReply::Happened(Err(error))) == (
        DaemonStepView::Exit { failure: Some(error), clean_up: true }),
        daemon_respond(
            DaemonStepView::Drain(source, activity),
            DaemonReply::Drained(Err(error)),
        ) == (DaemonStepView::Exit { failure: Some(error), clean_up: true }),
{
}

/// The daemon that waits sees to signals first, then to clients, then to events, each where there
/// is something, and then waits again.
pub proof fn law_the_daemon_sees_to_everything(activity: Activity)
    ensures
        ({
            let happened = daemon_respond(DaemonStepView::Wait, DaemonReply::Happened(Ok(activity)));
            let events = if activity.usb_event {
                DaemonStepView::Drain(Source::Events, activity)
            } else {
                DaemonStepView::Wait
            };
            let clients = if activity.control {
                DaemonStepView::Accept(activity)
            } else {
                events
            };
            &&& activity.shutdown ==> happened == DaemonStepView::Drain(Source::Signals, activity)
            &&& !activity.shutdown ==> happened == clients
            &&& daemon_respond(
                DaemonStepView::Drain(Source::Signals, activity),
                DaemonReply::Drained(Ok(false)),
            ) == clients
            &&& daemon_respond(
                DaemonStepView::Drain(Source::Signals, activity),
                DaemonReply::Drained(Ok(true)),
            ) == (DaemonStepView::Exit { failure: None, clean_up: true })
            &&& daemon_respond(DaemonStepView::Accept(activity), DaemonReply::Accepted(Ok(())))
                == DaemonStepView::Do(Chore::Serve, activity)
            &&& daemon_respond(
                DaemonStepView::Drain(Source::Events, activity),
                DaemonReply::Drained(Ok(true)),
            ) == DaemonStepView::Do(Chore::Refresh, activity)
            &&& daemon_respond(
                DaemonStepView::Drain(Source::Events, activity),
                DaemonReply::Drained(Ok(false)),
            ) == DaemonStepView::Wait
            &&& daemon_respond(
                DaemonStepView::Do(Chore::Refresh, activity),
                DaemonReply::Done(None),
            ) == DaemonStepView::Wait
        }),
{
}

/// No client is left where accepting one would block; the daemon goes on with the events then.
pub proof fn law_clients_are_accepted_until_none_is_left(activity: Activity, error: IoError)
    ensures
        error.kind == IoErrorKind::WouldBlock ==> daemon_respond(
            DaemonStepView::Accept(activity),
            DaemonReply::Accepted(Err(error)),
        ) == (if activity.usb_event {
            DaemonStepView::Drain(Source::Events, activity)
        } else {
            DaemonStepView::Wait
        }),
        error.kind != IoErrorKind::WouldBlock ==> (daemon_respond(
            DaemonStepView::Accept(activity),
            DaemonReply::Accepted(Err(error)),
        ) matches DaemonStepView::Exit { failure, clean_up } && failure is Some && clean_up),
{
}

/// Waiting gives what has happened, and nothing where no descriptor has anything. An interruption
/// makes it start again; any other failure is one.
pub proof fn law_waiting(ready: Readiness, error: IoError)
    ensures
        ready.count != 0 ==> wait_outcome(Ok(ready)) == WaitStepView::Done(Ok(ready.activity)),
        ready.count == 0 ==> wait_outcome(Ok(ready)) == WaitStepView::Done(
            Ok(Activity { shutdown: false, control: false, usb_event: false }),
        ),
        error.os_code == Some(4i32) ==> wait_outcome(Err(error)) == WaitStepView::Again,
        error.os_code != Some(4i32) ==> wait_outcome(Err(error)) == WaitStepView::Done(
            Err(
                ErrorView::Io {
                    context: "failed to wait for daemon activity"@,
                    source: error@,
                },
            ),
        ),
{
}

// ---- The socket ------------------------------------------------------------------------------

/// The socket is taken into use in this order: the directory that its path is in is made, it is
/// found out whether something is at the path, what is there is connected to and removed where
/// nobody listens, the socket is made, and it is restricted.
pub proof fn law_the_socket_is_taken_in_order(path: Seq<char>, refused: IoError)
    requires
        refused.kind == IoErrorKind::ConnectionRefused || refused.kind == IoErrorKind::NotFound,
    ensures
        ({
            let s = SocketView {
                path,
                parent: match parent_path(path) {
                    Some(parent) => parent,
                    None => Seq::empty(),
                },
            };
            &&& socket_start(path) == (if parent_path(path) is Some {
                SocketStepView::Perform(SocketTask::CreateDirectory, s)
            } else {
                SocketStepView::CheckExists(s)
            })
            &&& task_performed(SocketTask::CreateDirectory, s, Ok(()))
                == SocketStepView::CheckExists(s)
            &&& existence_known(s, false) == SocketStepView::Perform(SocketTask::Bind, s)
            &&& existence_known(s, true) == SocketStepView::Perform(SocketTask::Connect, s)
            &&& task_performed(SocketTask::Connect, s, Err(refused)) == SocketStepView::Perform(
                SocketTask::Remove,
                s,
            )
            &&& task_performed(SocketTask::Remove, s, Ok(())) == SocketStepView::Perform(
                SocketTask::Bind,
                s,
            )
            &&& task_performed(SocketTask::Bind, s, Ok(())) == SocketStepView::Perform(
                SocketTask::Restrict,
                s,
            )
            &&& task_performed(SocketTask::Restrict, s, Ok(())) == SocketStepView::Done(None)
        }),
{
}

/// A socket that somebody listens on is never taken over. A task that fails, otherwise than that
/// nobody listens, ends it with that failure and with the path that it was about.
pub proof fn law_socket_failures(task: SocketTask, s: SocketView, error: IoError)
    ensures
        task_performed(SocketTask::Connect, s, Ok(())) == SocketStepView::Done(
            Some(ErrorView::Config("control socket "@ + s.path + " is already in use"@)),
        ),
        !(task == SocketTask::Connect && (error.kind == IoErrorKind::ConnectionRefused || error.kind
            == IoErrorKind::NotFound)) ==> task_performed(task, s, Err(error))
            == SocketStepView::Done(
            Some(
                ErrorView::Io {
                    context: match task {
                        SocketTask::CreateDirectory => "failed to create socket directory "@
                            + s.parent,
                        SocketTask::Connect => "failed to inspect existing socket "@ + s.path,
                        SocketTask::Remove => "failed to remove stale socket "@ + s.path,
                        SocketTask::Bind => "failed to bind "@ + s.path,
                        SocketTask::Restrict => "failed to set permissions on "@ + s.path,
                    },
                    source: error@,
                },
            ),
        ),
{
}

/// A socket that is not there is as good as removed; that it could not be removed otherwise is a
/// failure.
pub proof fn law_sockets_are_removed(path: Seq<char>, error: IoError)
    ensures
        cleanup_failure(path, Ok(())) is None,
        error.kind == IoErrorKind::NotFound ==> cleanup_failure(path, Err(error)) is None,
        error.kind != IoErrorKind::NotFound ==> cleanup_failure(path, Err(error)) == Some(
            ErrorView::Io {
                context: "failed to remove control socket "@ + path,
                source: error@,
            },
        ),
{
}

} // verus!
