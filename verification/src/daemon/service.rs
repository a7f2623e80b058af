//! The life of the daemon: starting up, waiting for something to happen, and ending.
//!
//! What has to be done outside is handed out one step at a time; each step is resumed with what
//! came of it.
use super::state::{State, StateView};
use super::steps::dry_run;
use crate::config::Config;
use crate::error::{
    classify_os_error, failure, os_error, Error, ErrorView, IoError, IoErrorKind, OsError,
};
use crate::policy::validation::start_failure;
use crate::policy::Policy;
use vstd::prelude::*;

verus! {

/// What has happened.
#[derive(Clone, Copy, Debug, PartialEq, Eq, Structural)]
pub struct Activity {
    pub shutdown: bool,
    pub control: bool,
    pub usb_event: bool,
}

impl Default for Activity {
    fn default() -> (r: Self)
        ensures
            r == (Activity { shutdown: false, control: false, usb_event: false }),
    {
        Activity { shutdown: false, control: false, usb_event: false }
    }
}

// ---- Waiting ---------------------------------------------------------------------------------

/// What came of waiting on the daemon's descriptors: how many have something, and which.
#[derive(Debug)]
pub struct Readiness {
    pub count: i32,
    pub activity: Activity,
}

/// How waiting goes on.
#[derive(Debug)]
pub enum WaitStep {
    /// It was interrupted, and starts again.
    Again,
    Done(Result<Activity, Error>),
}

/// The plain value of what has happened, or of how waiting failed.
pub open spec fn activity_result(r: Result<Activity, Error>) -> Result<Activity, ErrorView> {
    match r {
        Ok(activity) => Ok(activity),
        Err(error) => Err(error@),
    }
}

#[verifier::ext_equal]
pub enum WaitStepView {
    Again,
    Done(Result<Activity, ErrorView>),
}

impl View for WaitStep {
    type V = WaitStepView;

    open spec fn view(&self) -> WaitStepView {
        match self {
            WaitStep::Again => WaitStepView::Again,
            WaitStep::Done(r) => WaitStepView::Done(activity_result(*r)),
        }
    }
}

/// What waiting comes to. An interruption is no end of it.
pub open spec fn wait_outcome(polled: Result<Readiness, IoError>) -> WaitStepView {
    match polled {
        Err(error) => if error.os_code is Some && os_error(error.os_code->0)
            == OsError::Interrupted {
            WaitStepView::Again
        } else {
            WaitStepView::Done(
                Err(
                    ErrorView::Io {
                        context: "failed to wait for daemon activity"@,
                        source: error@,
                    },
                ),
            )
        },
        Ok(ready) => if ready.count == 0 {
            WaitStepView::Done(
                Ok(Activity { shutdown: false, control: false, usb_event: false }),
            )
        } else {
            WaitStepView::Done(Ok(ready.activity))
        },
    }
}

/// What waiting comes to.
pub fn wait_for_activity(polled: Result<Readiness, IoError>) -> (r: WaitStep)
    ensures
        r@ == wait_outcome(polled),
{
    match polled {
        Err(error) => {
            if let Some(code) = error.os_code {
                if classify_os_error(code) == OsError::Interrupted {
                    return WaitStep::Again;
                }
            }
            WaitStep::Done(Err(Error::io("failed to wait for daemon activity".to_owned(), error)))
        },
        Ok(ready) => {
            if ready.count == 0 {
                WaitStep::Done(Ok(Activity::default()))
            } else {
                WaitStep::Done(Ok(ready.activity))
            }
        },
    }
}

// ---- Steps -----------------------------------------------------------------------------------

/// Something that is either done or not.
#[derive(Clone, Copy, Debug, PartialEq, Eq, Structural)]
pub enum Chore {
    /// Read the controllers, to put them back at the end.
    CaptureControllers,
    /// Take the control socket into use.
    BindSocket,
    /// Open the source of kernel events.
    OpenMonitor,
    /// Bring the devices in line for the first time.
    FirstRefresh,
    /// Take the signals that end the daemon.
    InstallSignals,
    /// Answer the client that has connected.
    Serve,
    /// Bring the devices in line after one changed.
    Refresh,
}

/// A source that has something to be taken off it.
#[derive(Clone, Copy, Debug, PartialEq, Eq, Structural)]
pub enum Source {
    Signals,
    Events,
}

/// A chore has to be done.
#[derive(Debug)]
pub struct Doing {
    chore: Chore,
    activity: Activity,
}

/// The control socket has to be made not to block.
#[derive(Debug)]
pub struct Configuring {
    _private: (),
}

/// The daemon has to wait until something happens.
#[derive(Debug)]
pub struct Waiting {
    _private: (),
}

/// A source has to be drained.
#[derive(Debug)]
pub struct Draining {
    source: Source,
    activity: Activity,
}

/// A client has to be accepted.
#[derive(Debug)]
pub struct Accepting {
    activity: Activity,
}

/// How the daemon goes on.
#[derive(Debug)]
pub enum DaemonStep {
    Do(Doing),
    Configure(Configuring),
    Wait(Waiting),
    Drain(Draining),
    Accept(Accepting),
    /// The daemon ends. The socket is removed and the controllers are put back where it had come
    /// so far as to use them.
    Exit { result: Result<(), Error>, clean_up: bool },
}

#[verifier::ext_equal]
pub enum DaemonStepView {
    Do(Chore, Activity),
    Configure,
    Wait,
    Drain(Source, Activity),
    Accept(Activity),
    Exit { failure: Option<ErrorView>, clean_up: bool },
}

impl View for DaemonStep {
    type V = DaemonStepView;

    open spec fn view(&self) -> DaemonStepView {
        match self {
            DaemonStep::Do(step) => DaemonStepView::Do(step.awaited(), step.seen()),
            DaemonStep::Configure(step) => DaemonStepView::Configure,
            DaemonStep::Wait(step) => DaemonStepView::Wait,
            DaemonStep::Drain(step) => DaemonStepView::Drain(step.awaited(), step.seen()),
            DaemonStep::Accept(step) => DaemonStepView::Accept(step.seen()),
            DaemonStep::Exit { result, clean_up } => DaemonStepView::Exit {
                failure: failure(*result),
                clean_up: *clean_up,
            },
        }
    }
}

/// Nothing has happened yet.
pub open spec fn no_activity() -> Activity {
    Activity { shutdown: false, control: false, usb_event: false }
}

/// The first step of a daemon.
pub open spec fn daemon_start(s: StateView) -> DaemonStepView {
    if s.config.controllers.restore_on_shutdown && !dry_run(s) {
        DaemonStepView::Do(Chore::CaptureControllers, no_activity())
    } else {
        DaemonStepView::Do(Chore::BindSocket, no_activity())
    }
}

/// The socket is the daemon's own by the time of the chore.
pub open spec fn owns_socket(chore: Chore) -> bool {
    chore != Chore::CaptureControllers && chore != Chore::BindSocket
}

/// How it goes on once clients have been seen to.
pub open spec fn after_control(activity: Activity) -> DaemonStepView {
    if activity.usb_event {
        DaemonStepView::Drain(Source::Events, activity)
    } else {
        DaemonStepView::Wait
    }
}

/// How it goes on once it is known that the daemon is not to end.
pub open spec fn after_signals(activity: Activity) -> DaemonStepView {
    if activity.control {
        DaemonStepView::Accept(activity)
    } else {
        after_control(activity)
    }
}

/// How it goes on with what came of a chore. A client that could not be served is no reason to
/// end.
pub open spec fn chore_done(
    chore: Chore,
    activity: Activity,
    result: Option<ErrorView>,
) -> DaemonStepView {
    match result {
        Some(error) => if chore == Chore::Serve {
            DaemonStepView::Accept(activity)
        } else {
            DaemonStepView::Exit { failure: Some(error), clean_up: owns_socket(chore) }
        },
        None => match chore {
            Chore::CaptureControllers => DaemonStepView::Do(Chore::BindSocket, activity),
            Chore::BindSocket => DaemonStepView::Configure,
            Chore::OpenMonitor => DaemonStepView::Do(Chore::FirstRefresh, activity),
            Chore::FirstRefresh => DaemonStepView::Do(Chore::InstallSignals, activity),
            Chore::InstallSignals => DaemonStepView::Wait,
            Chore::Serve => DaemonStepView::Accept(activity),
            Chore::Refresh => DaemonStepView::Wait,
        },
    }
}

/// How it goes on with what came of making the socket not block.
pub open spec fn configured(result: Result<(), IoError>) -> DaemonStepView {
    match result {
        Err(error) => DaemonStepView::Exit {
            failure: Some(
                ErrorView::Io { context: "failed to configure control socket"@, source: error@ },
            ),
            clean_up: false,
        },
        Ok(()) => DaemonStepView::Do(Chore::OpenMonitor, no_activity()),
    }
}

/// How it goes on with what has happened.
pub open spec fn waited(result: Result<Activity, ErrorView>) -> DaemonStepView {
    match result {
        Err(error) => DaemonStepView::Exit { failure: Some(error), clean_up: true },
        Ok(activity) => if activity.shutdown {
            DaemonStepView::Drain(Source::Signals, activity)
        } else {
            after_signals(activity)
        },
    }
}

/// How it goes on with what a source gave: whether there was a signal, or an event that counts.
pub open spec fn source_drained(
    source: Source,
    activity: Activity,
    result: Result<bool, ErrorView>,
) -> DaemonStepView {
    match result {
        Err(error) => DaemonStepView::Exit { failure: Some(error), clean_up: true },
        Ok(found) => match source {
            Source::Signals => if found {
                DaemonStepView::Exit { failure: None, clean_up: true }
            } else {
                after_signals(activity)
            },
            Source::Events => if found {
                DaemonStepView::Do(Chore::Refresh, activity)
            } else {
                DaemonStepView::Wait
            },
        },
    }
}

/// How it goes on with what came of accepting a client. None is left when that would block.
pub open spec fn accepted(activity: Activity, result: Result<(), IoError>) -> DaemonStepView {
    match result {
        Ok(()) => DaemonStepView::Do(Chore::Serve, activity),
        Err(error) => if error.kind == IoErrorKind::WouldBlock {
            after_control(activity)
        } else {
            DaemonStepView::Exit {
                failure: Some(
                    ErrorView::Io {
                        context: "failed to accept control connection"@,
                        source: error@,
                    },
                ),
                clean_up: true,
            }
        },
    }
}

// ---- Carrying the steps out ------------------------------------------------------------------

/// Starts the daemon. It does not start with a policy that would lock everybody out.
pub fn run_daemon(config: Config, policy: Policy) -> (r: Result<(State, DaemonStep), Error>)
    ensures
        r is Ok <==> start_failure(policy@, config@) is None,
        r matches Err(error) ==> Some(error@) == start_failure(policy@, config@),
        r matches Ok((state, step)) ==> {
            &&& state.wf()
            &&& state@ == (StateView {
                config: config@,
                policy: policy@,
                devices: Seq::empty(),
                overrides: Map::empty(),
                ids: Map::empty(),
                next_id: 1,
                restore: Seq::empty(),
                journal: Seq::empty(),
            })
            &&& step@ == daemon_start(state@)
        },
{
    if let Err(error) = policy.validate_for_start(&config) {
        return Err(error);
    }
    let state = State::new(config, policy);
    let chore = if state.wants_controller_restore() {
        Chore::CaptureControllers
    } else {
        Chore::BindSocket
    };
    Ok((state, DaemonStep::Do(Doing { chore, activity: Activity::default() })))
}

fn after_control_step(activity: Activity) -> (r: DaemonStep)
    ensures
        r@ == after_control(activity),
{
    if activity.usb_event {
        DaemonStep::Drain(Draining { source: Source::Events, activity })
    } else {
        DaemonStep::Wait(Waiting { _private: () })
    }
}

fn after_signals_step(activity: Activity) -> (r: DaemonStep)
    ensures
        r@ == after_signals(activity),
{
    if activity.control {
        DaemonStep::Accept(Accepting { activity })
    } else {
        after_control_step(activity)
    }
}

impl Doing {
    /// The chore.
    pub closed spec fn awaited(&self) -> Chore {
        self.chore
    }

    /// What had happened before it.
    pub closed spec fn seen(&self) -> Activity {
        self.activity
    }

    /// What has to be done.
    pub fn chore(&self) -> (r: Chore)
        ensures
            r == self.awaited(),
    {
        self.chore
    }

    /// Goes on with what came of it.
    pub fn resume(self, result: Result<(), Error>) -> (r: DaemonStep)
        ensures
            r@ == chore_done(self.awaited(), self.seen(), failure(result)),
    {
        let Doing { chore, activity } = self;
        match result {
            Err(error) => {
                if chore == Chore::Serve {
                    return DaemonStep::Accept(Accepting { activity });
                }
                let clean_up = chore != Chore::CaptureControllers && chore != Chore::BindSocket;
                DaemonStep::Exit { result: Err(error), clean_up }
            },
            Ok(()) => match chore {
                Chore::CaptureControllers => DaemonStep::Do(
                    Doing { chore: Chore::BindSocket, activity },
                ),
                Chore::BindSocket => DaemonStep::Configure(Configuring { _private: () }),
                Chore::OpenMonitor => DaemonStep::Do(
                    Doing { chore: Chore::FirstRefresh, activity },
                ),
                Chore::FirstRefresh => DaemonStep::Do(
                    Doing { chore: Chore::InstallSignals, activity },
                ),
                Chore::InstallSignals => DaemonStep::Wait(Waiting { _private: () }),
                Chore::Serve => DaemonStep::Accept(Accepting { activity }),
                Chore::Refresh => DaemonStep::Wait(Waiting { _private: () }),
            },
        }
    }
}

impl Configuring {
    /// Goes on with what came of making the socket not block.
    pub fn resume(self, result: Result<(), IoError>) -> (r: DaemonStep)
        ensures
            r@ == configured(result),
    {
        match result {
            Err(error) => DaemonStep::Exit {
                result: Err(Error::io("failed to configure control socket".to_owned(), error)),
                clean_up: false,
            },
            Ok(()) => DaemonStep::Do(
                Doing { chore: Chore::OpenMonitor, activity: Activity::default() },
            ),
        }
    }
}

impl Waiting {
    /// Goes on with what has happened.
    pub fn resume(self, result: Result<Activity, Error>) -> (r: DaemonStep)
        ensures
            r@ == waited(activity_result(result)),
    {
        match result {
            Err(error) => DaemonStep::Exit { result: Err(error), clean_up: true },
            Ok(activity) => {
                if activity.shutdown {
                    DaemonStep::Drain(Draining { source: Source::Signals, activity })
                } else {
                    after_signals_step(activity)
                }
            },
        }
    }
}

impl Draining {
    /// The source.
    pub closed spec fn awaited(&self) -> Source {
        self.source
    }

    /// What had happened before it.
    pub closed spec fn seen(&self) -> Activity {
        self.activity
    }

    /// What has to be drained.
    pub fn source(&self) -> (r: Source)
        ensures
            r == self.awaited(),
    {
        self.source
    }

    /// Goes on with what the source gave.
    pub fn resume(self, result: Result<bool, Error>) -> (r: DaemonStep)
        ensures
            r@ == source_drained(
                self.awaited(),
                self.seen(),
                match result {
                    Ok(found) => Ok(found),
                    Err(error) => Err(error@),
                },
            ),
    {
        match result {
            Err(error) => DaemonStep::Exit { result: Err(error), clean_up: true },
            Ok(found) => match self.source {
                Source::Signals => {
                    if found {
                        DaemonStep::Exit { result: Ok(()), clean_up: true }
                    } else {
                        after_signals_step(self.activity)
                    }
                },
                Source::Events => {
                    if found {
                        DaemonStep::Do(Doing { chore: Chore::Refresh, activity: self.activity })
                    } else {
                        DaemonStep::Wait(Waiting { _private: () })
                    }
                },
            },
        }
    }
}

impl Accepting {
    /// What had happened before.
    pub closed spec fn seen(&self) -> Activity {
        self.activity
    }

    /// Goes on with what came of accepting a client.
    pub fn resume(self, result: Result<(), IoError>) -> (r: DaemonStep)
        ensures
            r@ == accepted(self.seen(), result),
    {
        match result {
            Ok(()) => DaemonStep::Do(Doing { chore: Chore::Serve, activity: self.activity }),
            Err(error) => {
                if error.kind == IoErrorKind::WouldBlock {
                    after_control_step(self.activity)
                } else {
                    DaemonStep::Exit {
                        result: Err(
                            Error::io("failed to accept control connection".to_owned(), error),
                        ),
                        clean_up: true,
                    }
                }
            },
        }
    }
}

// ---- Laws ------------------------------------------------------------------------------------

/// What came of a step.
pub enum DaemonReply {
    Done(Option<ErrorView>),
    Configured(Result<(), IoError>),
    Happened(Result<Activity, ErrorView>),
    Drained(Result<bool, ErrorView>),
    Accepted(Result<(), IoError>),
}

/// How it goes on with a reply. A reply to something that was not asked for changes nothing.
pub open spec fn daemon_respond(step: DaemonStepView, reply: DaemonReply) -> DaemonStepView {
    match (step, reply) {
        (DaemonStepView::Do(chore, activity), DaemonReply::Done(result)) => chore_done(
            chore,
            activity,
            result,
        ),
        (DaemonStepView::Configure, DaemonReply::Configured(result)) => configured(result),
        (DaemonStepView::Wait, DaemonReply::Happened(result)) => waited(result),
        (DaemonStepView::Drain(source, activity), DaemonReply::Drained(result)) => source_drained(
            source,
            activity,
            result,
        ),
        (DaemonStepView::Accept(activity), DaemonReply::Accepted(result)) => accepted(
            activity,
            result,
        ),
        _ => step,
    }
}

/// Where the daemon has come to after some replies.
pub open spec fn daemon_run(step: DaemonStepView, replies: Seq<DaemonReply>) -> DaemonStepView
    decreases replies.len(),
{
    if replies.len() == 0 {
        step
    } else {
        daemon_respond(daemon_run(step, replies.drop_last()), replies.last())
    }
}

/// The daemon ends without an error only after a signal that asks it to.
pub proof fn law_only_a_signal_ends_the_daemon_well(s: StateView, replies: Seq<DaemonReply>)
    requires
        daemon_run(daemon_start(s), replies) matches DaemonStepView::Exit { failure: None, .. },
    ensures
        exists|n: int|
            0 <= n < replies.len() && (daemon_run(
                daemon_start(s),
                #[trigger] replies.take(n),
            ) matches DaemonStepView::Drain(Source::Signals, _)) && replies[n]
                == DaemonReply::Drained(Ok(true)),
    decreases replies.len(),
{
    let start = daemon_start(s);
    if replies.len() > 0 {
        let rest = replies.drop_last();
        if daemon_run(start, rest) matches DaemonStepView::Exit { failure: None, .. } {
            law_only_a_signal_ends_the_daemon_well(s, rest);
            let n = choose|n: int|
                0 <= n < rest.len() && (daemon_run(
                    start,
                    #[trigger] rest.take(n),
                ) matches DaemonStepView::Drain(Source::Signals, _)) && rest[n]
                    == DaemonReply::Drained(Ok(true));
            assert(replies.take(n) =~= rest.take(n));
            assert(replies[n] == rest[n]);
        } else {
            let n = replies.len() - 1;
            assert(replies.take(n) =~= rest);
        }
    }
}

/// The daemon has come past taking the socket into use.
pub open spec fn socket_in_use(step: DaemonStepView) -> bool {
    match step {
        DaemonStepView::Do(chore, _) => owns_socket(chore),
        DaemonStepView::Configure => false,
        DaemonStepView::Exit { clean_up, .. } => clean_up,
        _ => true,
    }
}

/// Once the daemon uses the socket it cleans up when it ends, however it ends.
pub proof fn law_a_running_daemon_cleans_up(step: DaemonStepView, replies: Seq<DaemonReply>)
    requires
        socket_in_use(step),
    ensures
        socket_in_use(daemon_run(step, replies)),
        daemon_run(step, replies) matches DaemonStepView::Exit { clean_up, .. } ==> clean_up,
    decreases replies.len(),
{
    if replies.len() > 0 {
        law_a_running_daemon_cleans_up(step, replies.drop_last());
    }
}

/// Once a device came, went or changed the devices are brought in line again. A source of events
/// that fails ends the daemon with that error.
pub proof fn law_changes_are_followed(activity: Activity, error: ErrorView)
    ensures
        source_drained(Source::Events, activity, Ok(true)) == DaemonStepView::Do(
            Chore::Refresh,
            activity,
        ),
        source_drained(Source::Events, activity, Err(error)) == (DaemonStepView::Exit {
            failure: Some(error),
            clean_up: true,
        }),
{
}

/// No client can end the daemon: whatever comes of serving one, the next is accepted.
pub proof fn law_clients_do_not_end_the_daemon(activity: Activity, result: Option<ErrorView>)
    ensures
        chore_done(Chore::Serve, activity, result) == DaemonStepView::Accept(activity),
{
}

} // verus!
