//! Bringing the devices in line with a policy: after they changed, when the policy is reloaded,
//! and to see what a reload would do.
//!
//! Each of these goes through reading the controllers, setting them, scanning the devices and
//! writing their authorization. What has to be done outside is handed out one step at a time; each
//! step is resumed with what came of it.
use super::changes::{device_summary, DeviceSummary};
use super::journal::{controller_entries, JournalEntry, JournalEntryView};
use super::state::{
    committed, decisions_of, preview_entries, redecided, snapshot_of, with_entries, Snapshot,
    SnapshotView, State, StateView,
};
use crate::config::{ConfigView, Loaded, Mode};
use crate::device::DeviceStateView;
use crate::error::{error_text, failure, Error, ErrorView, IoError};
use crate::policy::validation::{load_failure, loaded_policy, start_failure};
use crate::policy::{Decision, DecisionView, Policy, PolicyView};
use crate::sysfs::authorization::{
    apply_authorization, attempt_outcome, authorized_write, enforcement_outcome, settled,
    AuthorizedWrite, Enforcement, EnforcementOutcome, WriteAttempt,
};
use crate::sysfs::controllers::{
    authorizations_result, controller_updates, desired_authorized_default, desired_value,
    pending_updates, writes_resume, writes_start, ControllerAuthorization,
    ControllerAuthorizationState, ControllerAuthorizationStateView, ControllerAuthorizationUpdate,
    ControllerAuthorizationView, ControllerStep, ControllerStepView, ControllerWrites,
};
use crate::sysfs::scanner::{devices_result, states_result, wanted_updates};
use crate::sysfs::{UsbDevice, UsbDeviceView};
use vstd::prelude::*;

verus! {

// ---- Purposes and steps ----------------------------------------------------------------------

/// Why the devices are brought in line with a policy.
#[derive(Debug)]
enum Purpose {
    /// The devices changed.
    Refresh,
    /// This policy takes the place of the one in force.
    Reload(Policy),
    /// A reload failed with this error after devices may have been touched.
    Rollback(Error),
    /// To see what this policy would do.
    Preview(Policy),
}

#[verifier::ext_equal]
pub enum PurposeView {
    Refresh,
    Reload(PolicyView),
    Rollback(ErrorView),
    Preview(PolicyView),
}

impl View for Purpose {
    type V = PurposeView;

    closed spec fn view(&self) -> PurposeView {
        match self {
            Purpose::Refresh => PurposeView::Refresh,
            Purpose::Reload(policy) => PurposeView::Reload(policy@),
            Purpose::Rollback(error) => PurposeView::Rollback(error@),
            Purpose::Preview(policy) => PurposeView::Preview(policy@),
        }
    }
}

/// The policy file has to be loaded.
#[derive(Debug)]
pub struct LoadingPolicy {
    path: String,
    preview: bool,
}

/// The controllers have to be read.
#[derive(Debug)]
pub struct ReadingControllers {
    purpose: Purpose,
}

/// A controller has to be set.
#[derive(Debug)]
pub struct WritingController {
    purpose: Purpose,
    writes: ControllerWrites,
}

/// The devices have to be scanned.
#[derive(Debug)]
pub struct Scanning {
    purpose: Purpose,
}

/// The authorization of a device has to be written.
#[derive(Debug)]
pub struct Authorizing {
    purpose: Purpose,
    snapshot: Snapshot,
    index: usize,
}

/// What has to be done next.
#[derive(Debug)]
pub enum Step {
    LoadPolicy(LoadingPolicy),
    ReadControllers(ReadingControllers),
    WriteController(WritingController),
    Scan(Scanning),
    Authorize(Authorizing),
    /// It is done: the decisions about the devices, or what went wrong.
    Done(Result<Vec<Decision>, Error>),
}

#[verifier::ext_equal]
pub enum StepView {
    LoadPolicy { path: Seq<char>, preview: bool },
    ReadControllers(PurposeView),
    WriteController {
        purpose: PurposeView,
        desired: Seq<char>,
        pending: Seq<ControllerAuthorizationView>,
        next: int,
    },
    Scan(PurposeView),
    Authorize { purpose: PurposeView, snapshot: SnapshotView, index: int },
    Done(Result<Seq<DecisionView>, ErrorView>),
}

impl LoadingPolicy {
    pub closed spec fn file(&self) -> Seq<char> {
        self.path@
    }

    pub closed spec fn is_preview(&self) -> bool {
        self.preview
    }
}

impl ReadingControllers {
    pub closed spec fn purpose(&self) -> PurposeView {
        self.purpose@
    }
}

impl WritingController {
    pub closed spec fn purpose(&self) -> PurposeView {
        self.purpose@
    }

    pub closed spec fn writes(&self) -> ControllerWrites {
        self.writes
    }
}

impl Scanning {
    pub closed spec fn purpose(&self) -> PurposeView {
        self.purpose@
    }
}

impl Authorizing {
    pub closed spec fn purpose(&self) -> PurposeView {
        self.purpose@
    }

    pub closed spec fn snapshot(&self) -> SnapshotView {
        self.snapshot@
    }

    pub closed spec fn index(&self) -> int {
        self.index as int
    }

    pub closed spec fn wf(&self) -> bool {
        &&& self.snapshot.wf()
        &&& self.index < self.snapshot@.devices.len()
    }
}

impl View for Step {
    type V = StepView;

    open spec fn view(&self) -> StepView {
        match self {
            Step::LoadPolicy(step) => StepView::LoadPolicy {
                path: step.file(),
                preview: step.is_preview(),
            },
            Step::ReadControllers(step) => StepView::ReadControllers(step.purpose()),
            Step::WriteController(step) => StepView::WriteController {
                purpose: step.purpose(),
                desired: step.writes().desired(),
                pending: step.writes().pending(),
                next: step.writes().next(),
            },
            Step::Scan(step) => StepView::Scan(step.purpose()),
            Step::Authorize(step) => StepView::Authorize {
                purpose: step.purpose(),
                snapshot: step.snapshot(),
                index: step.index(),
            },
            Step::Done(r) => StepView::Done(decisions_result(*r)),
        }
    }
}

impl Step {
    pub open spec fn wf(&self) -> bool {
        match self {
            Step::Authorize(step) => step.wf(),
            _ => true,
        }
    }
}

/// The plain value of decisions, or of what went wrong.
pub open spec fn decisions_result(r: Result<Vec<Decision>, Error>) -> Result<
    Seq<DecisionView>,
    ErrorView,
> {
    match r {
        Ok(decisions) => Ok(decisions.deep_view()),
        Err(error) => Err(error@),
    }
}

// ---- How steps follow each other -------------------------------------------------------------

/// Nothing is enforced.
pub open spec fn dry_run(s: StateView) -> bool {
    s.config.mode == Mode::DryRun
}

/// The policy that the devices are brought in line with.
pub open spec fn policy_for(s: StateView, purpose: PurposeView) -> PolicyView {
    match purpose {
        PurposeView::Refresh => s.policy,
        PurposeView::Reload(policy) => policy,
        PurposeView::Rollback(error) => s.policy,
        PurposeView::Preview(policy) => policy,
    }
}

/// Work starts with the controllers, unless they are to be kept as they are.
pub open spec fn begin(s: StateView, purpose: PurposeView) -> StepView {
    if desired_value(s.config.controllers.authorized_default) is None {
        StepView::Scan(purpose)
    } else {
        StepView::ReadControllers(purpose)
    }
}

/// A refresh starts as all work does.
pub open spec fn refresh_start(s: StateView) -> StepView {
    begin(s, PurposeView::Refresh)
}

/// The configuration that a policy has to be fit for.
pub open spec fn start_config(s: StateView, preview: bool) -> ConfigView {
    if preview {
        ConfigView { mode: Mode::DryRun, ..s.config }
    } else {
        s.config
    }
}

/// A reload, or a preview of one, starts with the policy file that the configuration names.
pub open spec fn reload_start(s: StateView, preview: bool) -> StepView {
    StepView::LoadPolicy { path: s.config.policy_path, preview }
}

/// How it goes on with what came of loading the policy file at `path`.
pub open spec fn policy_loaded(
    s: StateView,
    path: Seq<char>,
    preview: bool,
    loaded: Loaded<Policy>,
) -> StepView {
    match load_failure(path, loaded, s.config) {
        Some(error) => StepView::Done(Err(error)),
        None => {
            let policy = loaded_policy(loaded, s.config);
            match start_failure(policy, start_config(s, preview)) {
                Some(error) => StepView::Done(Err(error)),
                None => if preview {
                    StepView::Scan(PurposeView::Preview(policy))
                } else {
                    begin(s, PurposeView::Reload(policy))
                },
            }
        },
    }
}

/// How it goes on while the controllers are being set.
pub open spec fn controllers_set(
    s: StateView,
    purpose: PurposeView,
    step: ControllerStepView,
) -> (StateView, StepView) {
    match step {
        ControllerStepView::Write { desired, pending, next } => (
            s,
            StepView::WriteController { purpose, desired, pending, next },
        ),
        ControllerStepView::Done(Err(error)) => (s, StepView::Done(Err(error))),
        ControllerStepView::Done(Ok(updates)) => (
            with_entries(s, controller_entries(updates, true)),
            StepView::Scan(purpose),
        ),
    }
}

/// How it goes on with what came of reading the controllers. Where nothing is enforced, what
/// would be set is only logged.
pub open spec fn controllers_read(
    s: StateView,
    purpose: PurposeView,
    found: Result<Seq<ControllerAuthorizationView>, ErrorView>,
) -> (StateView, StepView) {
    let default = s.config.controllers.authorized_default;
    if dry_run(s) {
        match wanted_updates(default, found) {
            Err(error) => (s, StepView::Done(Err(error))),
            Ok(updates) => (
                with_entries(s, controller_entries(updates, false)),
                StepView::Scan(purpose),
            ),
        }
    } else {
        controllers_set(s, purpose, writes_start(default, found))
    }
}

/// The error of a reload that could not even be undone.
pub open spec fn rollback_failure(cause: ErrorView, error: ErrorView) -> ErrorView {
    ErrorView::Policy(
        "reload failed after partial apply: "@ + error_text(cause) + "; rollback failed: "@
            + error_text(error),
    )
}

/// Work ends with an error before any device was touched.
pub open spec fn scan_failed(purpose: PurposeView, error: ErrorView) -> StepView {
    match purpose {
        PurposeView::Rollback(cause) => StepView::Done(Err(rollback_failure(cause, error))),
        _ => StepView::Done(Err(error)),
    }
}

/// A device could not be brought in line. A reload is undone then.
pub open spec fn apply_failed(purpose: PurposeView, error: ErrorView) -> StepView {
    match purpose {
        PurposeView::Reload(policy) => StepView::Scan(PurposeView::Rollback(error)),
        PurposeView::Rollback(cause) => StepView::Done(Err(rollback_failure(cause, error))),
        _ => StepView::Done(Err(error)),
    }
}

/// Every device is in line: the snapshot comes into force, and with it the policy of a reload.
pub open spec fn finish(s: StateView, purpose: PurposeView, snapshot: SnapshotView) -> (
    StateView,
    StepView,
) {
    let decisions = decisions_of(snapshot.devices);
    match purpose {
        PurposeView::Refresh => (committed(s, snapshot), StepView::Done(Ok(decisions))),
        PurposeView::Reload(policy) => (
            committed(StateView { policy, ..s }, snapshot),
            StepView::Done(Ok(decisions)),
        ),
        PurposeView::Rollback(cause) => (committed(s, snapshot), StepView::Done(Err(cause))),
        PurposeView::Preview(policy) => (s, StepView::Done(Ok(decisions))),
    }
}

/// The first device from `i` on that does not have the authorization that was decided, or the
/// number of devices.
pub open spec fn next_unsettled(devices: Seq<DeviceStateView>, i: int) -> int
    decreases devices.len() - i,
{
    if i >= devices.len() {
        devices.len() as int
    } else if settled(devices[i].device, devices[i].decision.action) {
        next_unsettled(devices, i + 1)
    } else {
        i
    }
}

/// The devices from `i` on have to be brought in line.
pub open spec fn apply_from(
    s: StateView,
    purpose: PurposeView,
    snapshot: SnapshotView,
    i: int,
) -> (StateView, StepView) {
    let index = next_unsettled(snapshot.devices, i);
    if index < snapshot.devices.len() {
        (s, StepView::Authorize { purpose, snapshot, index })
    } else {
        finish(s, purpose, snapshot)
    }
}

/// How it goes on with what a scan found.
pub open spec fn scanned(
    s: StateView,
    purpose: PurposeView,
    found: Result<Seq<UsbDeviceView>, ErrorView>,
) -> (StateView, StepView) {
    match found {
        Err(error) => (s, scan_failed(purpose, error)),
        Ok(devices) => match snapshot_of(s, policy_for(s, purpose), devices) {
            Err(error) => (s, scan_failed(purpose, error)),
            Ok(snapshot) => if dry_run(s) || purpose is Preview {
                finish(with_entries(s, preview_entries(snapshot.devices)), purpose, snapshot)
            } else {
                apply_from(s, purpose, snapshot, 0)
            },
        },
    }
}

/// The controllers have to be read when the daemon starts, to be put back when it ends.
pub open spec fn wants_restore(s: StateView) -> bool {
    s.config.controllers.restore_on_shutdown && !dry_run(s)
}

/// The state once the controllers were read, and what went wrong with that, where they are to be
/// put back.
pub open spec fn captured(
    s: StateView,
    states: Result<Seq<ControllerAuthorizationStateView>, ErrorView>,
) -> (StateView, Option<ErrorView>) {
    if wants_restore(s) {
        match states {
            Ok(states) => (StateView { restore: states, ..s }, None),
            Err(error) => (s, Some(error)),
        }
    } else {
        (s, None)
    }
}

/// The snapshot in which a device has the authorization that was decided.
pub open spec fn with_authorized(snapshot: SnapshotView, i: int) -> SnapshotView {
    SnapshotView {
        devices: snapshot.devices.update(
            i,
            redecided(snapshot.devices[i], snapshot.devices[i].decision, false),
        ),
        ..snapshot
    }
}

/// How it goes on with what came of writing the authorization of a device. A device that is gone
/// is passed over.
pub open spec fn attempted(
    s: StateView,
    purpose: PurposeView,
    snapshot: SnapshotView,
    i: int,
    attempt: WriteAttempt,
) -> (StateView, StepView) {
    let state = snapshot.devices[i];
    let path = authorized_write(state.device, state.decision.action).path;
    match attempt_outcome(path, attempt) {
        Err(error) => (s, apply_failed(purpose, error)),
        Ok(EnforcementOutcome::Applied) => apply_from(
            s,
            purpose,
            with_authorized(snapshot, i),
            i + 1,
        ),
        Ok(EnforcementOutcome::DeviceGone) => apply_from(
            with_entries(
                s,
                seq![JournalEntryView::DeviceGone(device_summary(state.device))],
            ),
            purpose,
            snapshot,
            i + 1,
        ),
    }
}

// ---- Carrying the steps out ------------------------------------------------------------------

fn begin_step(state: &State, purpose: Purpose) -> (r: Step)
    ensures
        r@ == begin(state@, purpose@),
        r.wf(),
{
    if desired_authorized_default(state.config().controllers.authorized_default).is_none() {
        Step::Scan(Scanning { purpose })
    } else {
        Step::ReadControllers(ReadingControllers { purpose })
    }
}

fn rollback_error(cause: &Error, error: &Error) -> (r: Error)
    ensures
        r@ == rollback_failure(cause@, error@),
{
    let mut message = "reload failed after partial apply: ".to_owned();
    let cause_text = cause.message();
    message.append(cause_text.as_str());
    message.append("; rollback failed: ");
    let error_text = error.message();
    message.append(error_text.as_str());
    Error::Policy(message)
}

fn scan_failed_step(purpose: Purpose, error: Error) -> (r: Step)
    ensures
        r@ == scan_failed(purpose@, error@),
        r.wf(),
{
    match purpose {
        Purpose::Rollback(cause) => Step::Done(Err(rollback_error(&cause, &error))),
        _ => Step::Done(Err(error)),
    }
}

fn apply_failed_step(purpose: Purpose, error: Error) -> (r: Step)
    ensures
        r@ == apply_failed(purpose@, error@),
        r.wf(),
{
    match purpose {
        Purpose::Reload(_) => Step::Scan(Scanning { purpose: Purpose::Rollback(error) }),
        Purpose::Rollback(cause) => Step::Done(Err(rollback_error(&cause, &error))),
        _ => Step::Done(Err(error)),
    }
}

fn finish_step(state: &mut State, purpose: Purpose, snapshot: Snapshot) -> (r: Step)
    requires
        old(state).wf(),
        snapshot.wf(),
    ensures
        final(state).wf(),
        (final(state)@, r@) == finish(old(state)@, purpose@, snapshot@),
        r.wf(),
{
    let decisions = snapshot.decisions();
    match purpose {
        Purpose::Refresh => {
            state.commit_snapshot(snapshot);
            Step::Done(Ok(decisions))
        },
        Purpose::Reload(policy) => {
            state.set_policy(policy);
            state.commit_snapshot(snapshot);
            Step::Done(Ok(decisions))
        },
        Purpose::Rollback(cause) => {
            state.commit_snapshot(snapshot);
            Step::Done(Err(cause))
        },
        Purpose::Preview(_) => Step::Done(Ok(decisions)),
    }
}

fn apply_from_step(state: &mut State, purpose: Purpose, snapshot: Snapshot, from: usize) -> (r:
    Step)
    requires
        old(state).wf(),
        snapshot.wf(),
        from <= snapshot@.devices.len(),
    ensures
        final(state).wf(),
        (final(state)@, r@) == apply_from(old(state)@, purpose@, snapshot@, from as int),
        r.wf(),
{
    let mut index: usize = from;
    let count = snapshot.count();
    while index < count
        invariant
            count == snapshot@.devices.len(),
            snapshot.wf(),
            from <= index <= count,
            next_unsettled(snapshot@.devices, from as int) == next_unsettled(
                snapshot@.devices,
                index as int,
            ),
            state.wf(),
            state@ == old(state)@,
        decreases count - index,
    {
        let device = snapshot.device(index);
        if let Enforcement::Write(_) = apply_authorization(&device.device, device.decision.action) {
            return Step::Authorize(Authorizing { purpose, snapshot, index });
        }
        index += 1;
    }
    finish_step(state, purpose, snapshot)
}

fn controllers_step(state: &mut State, purpose: Purpose, step: ControllerStep) -> (r: Step)
    requires
        old(state).wf(),
    ensures
        final(state).wf(),
        (final(state)@, r@) == controllers_set(old(state)@, purpose@, step@),
        r.wf(),
{
    match step {
        ControllerStep::Write(writes) => Step::WriteController(
            WritingController { purpose, writes },
        ),
        ControllerStep::Done(Err(error)) => Step::Done(Err(error)),
        ControllerStep::Done(Ok(updates)) => {
            state.note_controllers(updates, true);
            Step::Scan(Scanning { purpose })
        },
    }
}

impl State {
    /// The devices changed: starts to bring them in line with the policy in force.
    pub fn refresh(&self) -> (r: Step)
        ensures
            r@ == refresh_start(self@),
            r.wf(),
    {
        begin_step(self, Purpose::Refresh)
    }

    /// Starts to put the policy of the policy file into force.
    pub fn reload(&self) -> (r: Step)
        ensures
            r@ == reload_start(self@, false),
            r.wf(),
    {
        Step::LoadPolicy(
            LoadingPolicy { path: self.config().policy_path.clone(), preview: false },
        )
    }

    /// Starts to find out what a reload would do.
    pub fn dry_run_reload(&self) -> (r: Step)
        ensures
            r@ == reload_start(self@, true),
            r.wf(),
    {
        Step::LoadPolicy(
            LoadingPolicy { path: self.config().policy_path.clone(), preview: true },
        )
    }

    /// The controllers have to be read when the daemon starts, to be put back when it ends.
    pub fn wants_controller_restore(&self) -> (r: bool)
        ensures
            r == wants_restore(self@),
    {
        self.config().controllers.restore_on_shutdown && !self.is_dry_run()
    }

    /// Keeps what the controllers are put back to when the daemon ends, where they are to be.
    pub fn capture_controller_restore_state(
        &mut self,
        states: Result<Vec<ControllerAuthorizationState>, Error>,
    ) -> (r: Result<(), Error>)
        requires
            old(self).wf(),
        ensures
            final(self).wf(),
            (final(self)@, failure(r)) == captured(old(self)@, states_result(states)),
    {
        if !self.wants_controller_restore() {
            return Ok(());
        }
        match states {
            Err(error) => Err(error),
            Ok(states) => {
                self.set_controller_restore(states);
                Ok(())
            },
        }
    }
}

impl LoadingPolicy {
    /// The policy file that has to be loaded.
    pub fn path(&self) -> (r: &str)
        ensures
            r@ == self.file(),
    {
        self.path.as_str()
    }

    /// Goes on with what came of loading the policy file.
    pub fn resume(self, state: &State, loaded: Loaded<Policy>) -> (r: Step)
        ensures
            r@ == policy_loaded(state@, self.file(), self.is_preview(), loaded),
            r.wf(),
    {
        let config = state.config();
        let policy = match Policy::load(self.path.as_str(), loaded, config) {
            Err(error) => {
                return Step::Done(Err(error));
            },
            Ok(policy) => policy,
        };
        let checked = if self.preview {
            let mut preview_config = config.clone();
            preview_config.mode = Mode::DryRun;
            policy.validate_for_start(&preview_config)
        } else {
            policy.validate_for_start(config)
        };
        if let Err(error) = checked {
            return Step::Done(Err(error));
        }
        if self.preview {
            Step::Scan(Scanning { purpose: Purpose::Preview(policy) })
        } else {
            begin_step(state, Purpose::Reload(policy))
        }
    }
}

impl ReadingControllers {
    /// Goes on with what came of reading the controllers.
    pub fn resume(
        self,
        state: &mut State,
        found: Result<Vec<ControllerAuthorization>, Error>,
    ) -> (r: Step)
        requires
            old(state).wf(),
        ensures
            final(state).wf(),
            (final(state)@, r@) == controllers_read(
                old(state)@,
                self.purpose(),
                authorizations_result(found),
            ),
            r.wf(),
    {
        let default = state.config().controllers.authorized_default;
        if !state.is_dry_run() {
            return controllers_step(state, self.purpose, ControllerWrites::start(default, found));
        }
        let updates = match desired_authorized_default(default) {
            None => {
                let none: Vec<ControllerAuthorizationUpdate> = Vec::new();
                assert(none.deep_view() =~= Seq::empty());
                none
            },
            Some(desired) => match found {
                Err(error) => {
                    return Step::Done(Err(error));
                },
                Ok(found) => {
                    let pending = pending_updates(found, desired);
                    controller_updates(&pending, desired)
                },
            },
        };
        state.note_controllers(updates, false);
        Step::Scan(Scanning { purpose: self.purpose })
    }
}

impl WritingController {
    /// Where the value has to be written.
    pub fn path(&self) -> (r: &str)
        ensures
            r@ == self.writes().pending()[self.writes().next()].path,
    {
        self.writes.path()
    }

    /// The value that has to be written.
    pub fn value(&self) -> (r: &str)
        ensures
            r@ == self.writes().desired(),
    {
        self.writes.value()
    }

    /// Goes on with what came of writing it.
    pub fn resume(self, state: &mut State, written: Result<(), IoError>) -> (r: Step)
        requires
            old(state).wf(),
        ensures
            final(state).wf(),
            (final(state)@, r@) == controllers_set(
                old(state)@,
                self.purpose(),
                writes_resume(
                    self.writes().desired(),
                    self.writes().pending(),
                    self.writes().next(),
                    written,
                ),
            ),
            r.wf(),
    {
        let step = self.writes.resume(written);
        controllers_step(state, self.purpose, step)
    }
}

impl Scanning {
    /// Goes on with what the scan found.
    pub fn resume(self, state: &mut State, found: Result<Vec<UsbDevice>, Error>) -> (r: Step)
        requires
            old(state).wf(),
        ensures
            final(state).wf(),
            (final(state)@, r@) == scanned(old(state)@, self.purpose(), devices_result(found)),
            r.wf(),
    {
        let devices = match found {
            Err(error) => {
                return scan_failed_step(self.purpose, error);
            },
            Ok(devices) => devices,
        };
        let built = match &self.purpose {
            Purpose::Reload(policy) => state.build_snapshot(policy, devices),
            Purpose::Preview(policy) => state.build_snapshot(policy, devices),
            _ => state.build_snapshot(state.active_policy(), devices),
        };
        let snapshot = match built {
            Err(error) => {
                return scan_failed_step(self.purpose, error);
            },
            Ok(snapshot) => snapshot,
        };
        let preview = match &self.purpose {
            Purpose::Preview(_) => true,
            _ => false,
        };
        if preview || state.is_dry_run() {
            state.note_previews(&snapshot);
            finish_step(state, self.purpose, snapshot)
        } else {
            apply_from_step(state, self.purpose, snapshot, 0)
        }
    }
}

impl Authorizing {
    /// What has to be written, and where.
    pub fn write(&self) -> (r: AuthorizedWrite)
        requires
            self.wf(),
        ensures
            r@ == authorized_write(
                self.snapshot().devices[self.index()].device,
                self.snapshot().devices[self.index()].decision.action,
            ),
    {
        let device = self.snapshot.device(self.index);
        crate::sysfs::authorization::write_for(&device.device, device.decision.action)
    }

    /// Goes on with what came of writing it.
    pub fn resume(self, state: &mut State, attempt: WriteAttempt) -> (r: Step)
        requires
            old(state).wf(),
            self.wf(),
        ensures
            final(state).wf(),
            (final(state)@, r@) == attempted(
                old(state)@,
                self.purpose(),
                self.snapshot(),
                self.index(),
                attempt,
            ),
            r.wf(),
    {
        let write = self.write();
        let mut snapshot = self.snapshot;
        let index = self.index;
        let count = snapshot.count();
        assert(index < count);
        match enforcement_outcome(write.path.as_str(), attempt) {
            Err(error) => apply_failed_step(self.purpose, error),
            Ok(EnforcementOutcome::Applied) => {
                snapshot.set_authorized(index);
                apply_from_step(state, self.purpose, snapshot, index + 1)
            },
            Ok(EnforcementOutcome::DeviceGone) => {
                let gone = DeviceSummary::of(&snapshot.device(index).device);
                state.note(JournalEntry::DeviceGone(gone));
                apply_from_step(state, self.purpose, snapshot, index + 1)
            },
        }
    }
}

} // verus!
