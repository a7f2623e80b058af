//! Answering requests.
use super::identity::device_key;
use super::overrides::{
    clear_requested, override_requested, OverrideStep, OverrideStepView, Overriding,
    OverridingView,
};
use super::state::{present, State, StateView};
use super::steps::{decisions_result, reload_start, Step, StepView};
use crate::control::{Request, Response, ResponseView};
use crate::device::DeviceState;
use crate::error::{error_text, Error, ErrorView};
use crate::policy::{action_name, Action, Decision, DecisionView};
use crate::text::{decimal, decimal_string};
use vstd::prelude::*;

verus! {

/// How a request is handled.
#[derive(Debug)]
pub enum Handling {
    /// It is answered.
    Answer(Response),
    /// The answer is the decisions that some work comes to.
    Decide(Step),
    /// The device with the number is being overridden.
    Apply { id: u32, action: Action, step: Overriding },
    /// The override of the device with the number is being cleared.
    Clear { id: u32, step: Overriding },
}

#[verifier::ext_equal]
pub enum HandlingView {
    Answer(ResponseView),
    Decide(StepView),
    Apply { id: u32, action: Action, step: OverridingView },
    Clear { id: u32, step: OverridingView },
}

impl View for Handling {
    type V = HandlingView;

    open spec fn view(&self) -> HandlingView {
        match self {
            Handling::Answer(response) => HandlingView::Answer(response@),
            Handling::Decide(step) => HandlingView::Decide(step@),
            Handling::Apply { id, action, step } => HandlingView::Apply {
                id: *id,
                action: *action,
                step: step@,
            },
            Handling::Clear { id, step } => HandlingView::Clear { id: *id, step: step@ },
        }
    }
}

impl Handling {
    /// What is in progress belongs to the state.
    pub open spec fn fits(&self, s: StateView) -> bool {
        match self {
            Handling::Answer(_) => true,
            Handling::Decide(step) => step.wf(),
            Handling::Apply { id, action, step } => present(s.devices, device_key(step@.device)),
            Handling::Clear { id, step } => present(s.devices, device_key(step@.device)),
        }
    }
}

// ---- Answers ---------------------------------------------------------------------------------

/// The answer to a request that failed.
pub open spec fn error_answer(error: ErrorView) -> ResponseView {
    ResponseView::Error { message: error_text(error) }
}

/// The answer that holds the decisions about the devices.
pub open spec fn decisions_answer(r: Result<Seq<DecisionView>, ErrorView>) -> ResponseView {
    match r {
        Ok(decisions) => ResponseView::Decisions { decisions },
        Err(error) => error_answer(error),
    }
}

/// The answer to a request to override a device.
pub open spec fn apply_answer(
    id: u32,
    action: Action,
    r: Result<DecisionView, ErrorView>,
) -> ResponseView {
    match r {
        Ok(_) => ResponseView::Done {
            message: action_name(action) + " device "@ + decimal(id as nat)
                + " with manual override"@,
        },
        Err(error) => error_answer(error),
    }
}

/// The answer to a request to clear an override.
pub open spec fn clear_answer(id: u32, r: Result<DecisionView, ErrorView>) -> ResponseView {
    match r {
        Ok(decision) => ResponseView::Done {
            message: "cleared manual override for device "@ + decimal(id as nat)
                + "; policy now "@ + action_name(decision.action),
        },
        Err(error) => error_answer(error),
    }
}

/// The answer to a request that is no request.
pub open spec fn invalid_answer(message: Seq<char>) -> ResponseView {
    ResponseView::Error { message: "invalid control request: "@ + message }
}

/// The plain value of a decision, or of what went wrong.
pub open spec fn decision_result(r: Result<Decision, Error>) -> Result<DecisionView, ErrorView> {
    match r {
        Ok(decision) => Ok(decision@),
        Err(error) => Err(error@),
    }
}

/// The answer about the daemon itself.
pub open spec fn status_answer(s: StateView) -> ResponseView {
    ResponseView::Status {
        mode: s.config.mode,
        device_count: s.devices.len(),
        override_count: s.overrides.dom().len(),
        socket_path: s.config.socket_path,
        policy_path: s.config.policy_path,
    }
}

/// How a request is handled.
pub open spec fn request_handled(s: StateView, request: Request) -> (StateView, HandlingView) {
    match request {
        Request::Status => (s, HandlingView::Answer(status_answer(s))),
        Request::ListDevices => (
            s,
            HandlingView::Answer(ResponseView::Devices { devices: s.devices }),
        ),
        Request::Reload => (s, HandlingView::Decide(reload_start(s, false))),
        Request::DryRunReload => (s, HandlingView::Decide(reload_start(s, true))),
        Request::Apply { id, action } => {
            let (after, step) = override_requested(s, id, action);
            match step {
                OverrideStepView::Authorize(step) => (
                    after,
                    HandlingView::Apply { id, action, step },
                ),
                OverrideStepView::Done(r) => (
                    after,
                    HandlingView::Answer(apply_answer(id, action, r)),
                ),
            }
        },
        Request::ClearOverride { id } => {
            let (after, step) = clear_requested(s, id);
            match step {
                OverrideStepView::Authorize(step) => (after, HandlingView::Clear { id, step }),
                OverrideStepView::Done(r) => (after, HandlingView::Answer(clear_answer(id, r))),
            }
        },
    }
}

/// The answer to a request that failed.
pub fn answer_error(error: &Error) -> (r: Response)
    ensures
        r@ == error_answer(error@),
{
    Response::Error { message: error.message() }
}

/// The answer that holds the decisions about the devices.
pub fn answer_decisions(r: Result<Vec<Decision>, Error>) -> (answer: Response)
    ensures
        answer@ == decisions_answer(decisions_result(r)),
{
    match r {
        Ok(decisions) => Response::Decisions { decisions },
        Err(error) => answer_error(&error),
    }
}

/// The answer to a request to override a device.
pub fn answer_apply(id: u32, action: Action, r: Result<Decision, Error>) -> (answer: Response)
    ensures
        answer@ == apply_answer(id, action, decision_result(r)),
{
    match r {
        Ok(_) => {
            let mut message = action.as_str().to_owned();
            let number = decimal_string(id as u64);
            message.append(" device ");
            message.append(number.as_str());
            message.append(" with manual override");
            Response::Done { message }
        },
        Err(error) => answer_error(&error),
    }
}

/// The answer to a request to clear an override.
pub fn answer_clear(id: u32, r: Result<Decision, Error>) -> (answer: Response)
    ensures
        answer@ == clear_answer(id, decision_result(r)),
{
    match r {
        Ok(decision) => {
            let mut message = "cleared manual override for device ".to_owned();
            let number = decimal_string(id as u64);
            message.append(number.as_str());
            message.append("; policy now ");
            message.append(decision.action.as_str());
            Response::Done { message }
        },
        Err(error) => answer_error(&error),
    }
}

/// The answer to a request that is no request, with what the parser says of it.
pub fn answer_invalid(message: &str) -> (answer: Response)
    ensures
        answer@ == invalid_answer(message@),
{
    let mut text = "invalid control request: ".to_owned();
    text.append(message);
    Response::Error { message: text }
}

fn copy_devices(devices: &Vec<DeviceState>) -> (r: Vec<DeviceState>)
    ensures
        r.deep_view() == devices.deep_view(),
{
    let mut copies: Vec<DeviceState> = Vec::new();
    for i in 0..devices.len()
        invariant
            copies@.len() == i,
            forall|j: int| 0 <= j < i ==> (#[trigger] copies@[j])@ == devices@[j]@,
    {
        copies.push(devices[i].clone());
    }
    assert(copies.deep_view() =~= devices.deep_view());
    copies
}

/// Handles a request: answers it, or starts the work that its answer takes.
pub fn handle_request(request: Request, state: &mut State) -> (r: Handling)
    requires
        old(state).wf(),
    ensures
        final(state).wf(),
        (final(state)@, r@) == request_handled(old(state)@, request),
        r.fits(final(state)@),
{
    match request {
        Request::Status => {
            let config = state.config();
            Handling::Answer(
                Response::Status {
                    mode: config.mode,
                    device_count: state.devices().len(),
                    override_count: state.override_count(),
                    socket_path: config.socket_path.clone(),
                    policy_path: config.policy_path.clone(),
                },
            )
        },
        Request::ListDevices => Handling::Answer(
            Response::Devices { devices: copy_devices(state.devices()) },
        ),
        Request::Reload => Handling::Decide(state.reload()),
        Request::DryRunReload => Handling::Decide(state.dry_run_reload()),
        Request::Apply { id, action } => match state.apply_override(id, action) {
            OverrideStep::Authorize(step) => Handling::Apply { id, action, step },
            OverrideStep::Done(r) => Handling::Answer(answer_apply(id, action, r)),
        },
        Request::ClearOverride { id } => match state.clear_override(id) {
            OverrideStep::Authorize(step) => Handling::Clear { id, step },
            OverrideStep::Done(r) => Handling::Answer(answer_clear(id, r)),
        },
    }
}

/// A request about a number that no device goes by is answered with an error that says so, and
/// changes nothing.
pub proof fn law_unknown_devices_are_refused(s: StateView, id: u32, action: Action)
    requires
        !super::override_laws::known(s, id),
    ensures
        request_handled(s, Request::Apply { id, action }) == (
            s,
            HandlingView::Answer(
                ResponseView::Error {
                    message: "protocol error: "@ + ("unknown device id "@ + decimal(id as nat)),
                },
            ),
        ),
        request_handled(s, Request::ClearOverride { id }) == (
            s,
            HandlingView::Answer(
                ResponseView::Error {
                    message: "protocol error: "@ + ("unknown device id "@ + decimal(id as nat)),
                },
            ),
        ),
{
}

/// To ask for the status or for the devices changes nothing; nor does a reload as long as the policy
/// file has not been loaded.
pub proof fn law_queries_change_nothing(s: StateView, request: Request)
    requires
        request == Request::Status || request == Request::ListDevices || request
            == Request::Reload || request == Request::DryRunReload,
    ensures
        request_handled(s, request).0 == s,
{
}

} // verus!
