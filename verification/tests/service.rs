use custos::config::{Config, ControllerConfig, Mode};
use custos::daemon::service::{
    run_daemon, wait_for_activity, Activity, Chore, DaemonStep, Readiness, Source, WaitStep,
};
use custos::error::{Error, IoError, IoErrorKind};
use custos::policy::Policy;
use custos::signal::{SignalDrain, SignalStep};
use nix::sys::signal::{raise, SigSet, SigmaskHow, Signal};
use nix::sys::signalfd::{SfdFlags, SignalFd};

fn failure(kind: IoErrorKind, os_code: Option<i32>) -> IoError {
    IoError { kind, os_code, message: "failed".to_string() }
}

fn dry_run() -> Config {
    Config { mode: Mode::DryRun, ..Config::default() }
}

fn chore(step: &DaemonStep) -> Option<Chore> {
    match step {
        DaemonStep::Do(doing) => Some(doing.chore()),
        _ => None,
    }
}

fn done(step: DaemonStep) -> DaemonStep {
    match step {
        DaemonStep::Do(doing) => doing.resume(Ok(())),
        _ => panic!("a chore has to be done"),
    }
}

/// The step after something has happened to a daemon that has started.
fn after(activity: Activity) -> DaemonStep {
    let (_, mut step) = run_daemon(dry_run(), Policy::default()).expect("the daemon starts");
    loop {
        step = match step {
            DaemonStep::Do(doing) => doing.resume(Ok(())),
            DaemonStep::Configure(configuring) => configuring.resume(Ok(())),
            DaemonStep::Wait(waiting) => return waiting.resume(Ok(activity)),
            _ => panic!("the daemon is starting"),
        };
    }
}

#[test]
fn the_daemon_starts_in_order() {
    let (state, step) = run_daemon(dry_run(), Policy::default()).expect("the daemon starts");
    assert!(state.devices().is_empty());
    assert_eq!(chore(&step), Some(Chore::BindSocket));
    let step = match done(step) {
        DaemonStep::Configure(configuring) => configuring.resume(Ok(())),
        _ => panic!("the socket has to be configured"),
    };
    assert_eq!(chore(&step), Some(Chore::OpenMonitor));
    let step = done(step);
    assert_eq!(chore(&step), Some(Chore::FirstRefresh));
    let step = done(step);
    assert_eq!(chore(&step), Some(Chore::InstallSignals));
    assert!(matches!(done(step), DaemonStep::Wait(_)));
}

#[test]
fn the_daemon_refuses_a_policy_that_locks_out() {
    let error = run_daemon(Config::default(), Policy::default())
        .map(|_| ())
        .expect_err("nothing would be allowed");
    assert!(error.message().contains("refusing to enforce"));
}

#[test]
fn controllers_are_captured_first_where_they_are_put_back() {
    let config = Config {
        unsafe_allow_empty_policy: true,
        controllers: ControllerConfig { restore_on_shutdown: true, ..ControllerConfig::default() },
        ..Config::default()
    };
    let (_, step) = run_daemon(config, Policy::default()).expect("the daemon starts");
    assert_eq!(chore(&step), Some(Chore::CaptureControllers));
    assert_eq!(chore(&done(step)), Some(Chore::BindSocket));
}

#[test]
fn a_daemon_that_cannot_use_its_socket_leaves_it_alone() {
    let (_, step) = run_daemon(dry_run(), Policy::default()).expect("the daemon starts");
    match step {
        DaemonStep::Do(doing) => match doing.resume(Err(Error::Config("in use".to_string()))) {
            DaemonStep::Exit { result, clean_up } => {
                assert_eq!(result, Err(Error::Config("in use".to_string())));
                assert!(!clean_up);
            }
            _ => panic!("the daemon ends"),
        },
        _ => panic!("the socket has to be bound"),
    }
    let (_, step) = run_daemon(dry_run(), Policy::default()).expect("the daemon starts");
    match done(step) {
        DaemonStep::Configure(configuring) => {
            match configuring.resume(Err(failure(IoErrorKind::Other, None))) {
                DaemonStep::Exit { result, clean_up } => {
                    assert_eq!(
                        result.expect_err("it fails").message(),
                        "failed to configure control socket: failed"
                    );
                    assert!(!clean_up);
                }
                _ => panic!("the daemon ends"),
            }
        }
        _ => panic!("the socket has to be configured"),
    }
}

#[test]
fn signals_come_before_clients_and_clients_before_events() {
    let everything = Activity { shutdown: true, control: true, usb_event: true };
    let draining = match after(everything) {
        DaemonStep::Drain(draining) => draining,
        _ => panic!("signals come first"),
    };
    assert_eq!(draining.source(), Source::Signals);
    let accepting = match draining.resume(Ok(false)) {
        DaemonStep::Accept(accepting) => accepting,
        _ => panic!("clients come next"),
    };
    let accepting = match accepting.resume(Ok(())) {
        DaemonStep::Do(doing) => {
            assert_eq!(doing.chore(), Chore::Serve);
            match doing.resume(Err(Error::Protocol("bad client".to_string()))) {
                DaemonStep::Accept(accepting) => accepting,
                _ => panic!("the next client is accepted"),
            }
        }
        _ => panic!("the client is served"),
    };
    let draining = match accepting.resume(Err(failure(IoErrorKind::WouldBlock, Some(11)))) {
        DaemonStep::Drain(draining) => draining,
        _ => panic!("events come last"),
    };
    assert_eq!(draining.source(), Source::Events);
    let step = draining.resume(Ok(true));
    assert_eq!(chore(&step), Some(Chore::Refresh));
    assert!(matches!(done(step), DaemonStep::Wait(_)));
}

#[test]
fn a_signal_ends_the_daemon_well() {
    let shutdown = Activity { shutdown: true, ..Activity::default() };
    match after(shutdown) {
        DaemonStep::Drain(draining) => match draining.resume(Ok(true)) {
            DaemonStep::Exit { result, clean_up } => {
                assert_eq!(result, Ok(()));
                assert!(clean_up);
            }
            _ => panic!("the daemon ends"),
        },
        _ => panic!("the signal has to be taken"),
    }
}

#[test]
fn failures_while_running_end_the_daemon_with_an_error() {
    let event = Activity { usb_event: true, ..Activity::default() };
    match after(event) {
        DaemonStep::Drain(draining) => {
            match draining.resume(Err(Error::Config("monitor".to_string()))) {
                DaemonStep::Exit { result, clean_up } => {
                    assert!(result.is_err());
                    assert!(clean_up);
                }
                _ => panic!("the daemon ends"),
            }
        }
        _ => panic!("the event has to be taken"),
    }
    let client = Activity { control: true, ..Activity::default() };
    match after(client) {
        DaemonStep::Accept(accepting) => {
            match accepting.resume(Err(failure(IoErrorKind::Other, None))) {
                DaemonStep::Exit { result, clean_up } => {
                    assert_eq!(
                        result.expect_err("it fails").message(),
                        "failed to accept control connection: failed"
                    );
                    assert!(clean_up);
                }
                _ => panic!("the daemon ends"),
            }
        }
        _ => panic!("the client has to be accepted"),
    }
    assert!(matches!(after(Activity::default()), DaemonStep::Wait(_)));
}

#[test]
fn interruptions_do_not_end_waiting() {
    assert!(matches!(
        wait_for_activity(Err(failure(IoErrorKind::Other, Some(4)))),
        WaitStep::Again
    ));
    match wait_for_activity(Err(failure(IoErrorKind::Other, Some(11)))) {
        WaitStep::Done(Err(error)) => {
            assert_eq!(error.message(), "failed to wait for daemon activity: failed")
        }
        _ => panic!("waiting fails"),
    }
    let activity = Activity { control: true, ..Activity::default() };
    match wait_for_activity(Ok(Readiness { count: 1, activity })) {
        WaitStep::Done(Ok(happened)) => assert_eq!(happened, activity),
        _ => panic!("something has happened"),
    }
    match wait_for_activity(Ok(Readiness { count: 0, activity })) {
        WaitStep::Done(Ok(happened)) => assert_eq!(happened, Activity::default()),
        _ => panic!("nothing has happened"),
    }
}

/// Takes all signals off a descriptor.
fn drain(fd: &SignalFd) -> Result<bool, Error> {
    let mut drain = SignalDrain::start();
    loop {
        let read = fd.read_signal().map(|signal| signal.is_some()).map_err(|error| {
            failure(IoErrorKind::Other, Some(error as i32))
        });
        match drain.resume(read) {
            SignalStep::Read(next) => drain = next,
            SignalStep::Done(found) => return found,
        }
    }
}

#[test]
fn shutdown_signal_drain_reports_no_signal_when_empty() {
    let mut mask = SigSet::empty();
    mask.add(Signal::SIGTERM);
    mask.add(Signal::SIGINT);
    let previous_mask =
        mask.thread_swap_mask(SigmaskHow::SIG_BLOCK).expect("the signals are blocked");
    let fd = SignalFd::with_flags(&mask, SfdFlags::SFD_NONBLOCK | SfdFlags::SFD_CLOEXEC)
        .expect("the descriptor is made");

    assert_eq!(drain(&fd), Ok(false));
    raise(Signal::SIGTERM).expect("the signal is raised");
    assert_eq!(drain(&fd), Ok(true));
    assert_eq!(drain(&fd), Ok(false));
    previous_mask.thread_set_mask().expect("the mask is put back");
}

#[test]
fn signals_are_taken_until_none_is_left() {
    match SignalDrain::start().resume(Ok(false)) {
        SignalStep::Done(found) => assert_eq!(found, Ok(false)),
        SignalStep::Read(_) => panic!("no signal is left"),
    }
    let drain = match SignalDrain::start().resume(Ok(true)) {
        SignalStep::Read(drain) => drain,
        SignalStep::Done(_) => panic!("there may be more"),
    };
    let drain = match drain.resume(Err(failure(IoErrorKind::Other, Some(4)))) {
        SignalStep::Read(drain) => drain,
        SignalStep::Done(_) => panic!("an interruption is no end"),
    };
    match drain.resume(Ok(false)) {
        SignalStep::Done(found) => assert_eq!(found, Ok(true)),
        SignalStep::Read(_) => panic!("no signal is left"),
    }
    match SignalDrain::start().resume(Err(failure(IoErrorKind::Other, Some(5)))) {
        SignalStep::Done(Err(error)) => assert_eq!(
            error.message(),
            "failed to read shutdown signal descriptor: failed"
        ),
        _ => panic!("reading fails"),
    }
}
