//! Overriding what the policy decides about a device, and going back to it.
use super::identity::device_key;
use super::journal::{
    cleared_records, log_manual_override, log_override_cleared, override_record, preview_entry,
    record_entries, JournalEntry, JournalEntryView,
};
use super::changes::DeviceSummary;
use super::state::{
    device_index, manual_decision, present, recorded, unknown_id, with_entries, State, StateView,
};
use super::steps::dry_run;
use crate::error::{Error, ErrorView};
use crate::policy::{policy_decision, Action, Decision, DecisionView};
use crate::sysfs::authorization::{
    attempt_outcome, authorized_write, enforcement_outcome, force_authorization,
    preview_authorization, write_for, AuthorizedWrite, Enforcement, EnforcementOutcome,
    WriteAttempt,
};
use crate::sysfs::{UsbDevice, UsbDeviceView};
use crate::text::{decimal, decimal_string};
use vstd::prelude::*;

verus! {

/// The authorization of a device has to be written, whatever was last read of it, because it is
/// being overridden or because its override is being cleared.
#[derive(Debug)]
pub struct Overriding {
    id: u32,
    device: UsbDevice,
    decision: Decision,
    previous_action: Action,
    clears: bool,
}

#[verifier::ext_equal]
pub struct OverridingView {
    pub id: u32,
    pub device: UsbDeviceView,
    pub decision: DecisionView,
    pub previous_action: Action,
    pub clears: bool,
}

impl View for Overriding {
    type V = OverridingView;

    closed spec fn view(&self) -> OverridingView {
        OverridingView {
            id: self.id,
            device: self.device@,
            decision: self.decision@,
            previous_action: self.previous_action,
            clears: self.clears,
        }
    }
}

/// What has to be done next.
#[derive(Debug)]
pub enum OverrideStep {
    Authorize(Overriding),
    /// It is done: the decision that is in force now, or what went wrong.
    Done(Result<Decision, Error>),
}

#[verifier::ext_equal]
pub enum OverrideStepView {
    Authorize(OverridingView),
    Done(Result<DecisionView, ErrorView>),
}

impl View for OverrideStep {
    type V = OverrideStepView;

    open spec fn view(&self) -> OverrideStepView {
        match self {
            OverrideStep::Authorize(step) => OverrideStepView::Authorize(step@),
            OverrideStep::Done(Ok(decision)) => OverrideStepView::Done(Ok(decision@)),
            OverrideStep::Done(Err(error)) => OverrideStepView::Done(Err(error@)),
        }
    }
}

impl OverrideStep {
    /// The device that the step is about is there.
    pub open spec fn fits(&self, s: StateView) -> bool {
        match self {
            OverrideStep::Authorize(step) => present(s.devices, device_key(step@.device)),
            OverrideStep::Done(_) => true,
        }
    }
}

/// The error of a device that went before something could be done.
pub open spec fn disappeared(id: u32, before: Seq<char>) -> ErrorView {
    ErrorView::Protocol("device id "@ + decimal(id as nat) + " disappeared before "@ + before)
}

/// The state and the answer once it is known what became of the device. An override is in force
/// only after it was carried out. It is forgotten when it is cleared, even where the device is
/// gone.
pub open spec fn override_settled(
    s: StateView,
    o: OverridingView,
    outcome: EnforcementOutcome,
) -> (StateView, OverrideStepView) {
    let key = device_key(o.device);
    let done = recorded(s, o.id, o.decision);
    match outcome {
        EnforcementOutcome::Applied => if o.clears {
            (
                with_entries(
                    StateView { overrides: done.overrides.remove(key), ..done },
                    record_entries(
                        cleared_records(o.device, Some(o.previous_action), o.decision),
                    ),
                ),
                OverrideStepView::Done(Ok(o.decision)),
            )
        } else {
            (
                with_entries(
                    StateView { overrides: done.overrides.insert(key, o.decision.action), ..done },
                    seq![JournalEntryView::Decision(override_record(o.device, o.decision))],
                ),
                OverrideStepView::Done(Ok(o.decision)),
            )
        },
        EnforcementOutcome::DeviceGone => if o.clears {
            (
                StateView { overrides: s.overrides.remove(key), ..s },
                OverrideStepView::Done(
                    Err(disappeared(o.id, "policy could be reapplied"@)),
                ),
            )
        } else {
            (
                s,
                OverrideStepView::Done(
                    Err(disappeared(o.id, "manual override could be applied"@)),
                ),
            )
        },
    }
}

/// How it goes on with what came of writing the authorization.
pub open spec fn override_attempted(s: StateView, o: OverridingView, attempt: WriteAttempt) -> (
    StateView,
    OverrideStepView,
) {
    match attempt_outcome(authorized_write(o.device, o.decision.action).path, attempt) {
        Err(error) => (s, OverrideStepView::Done(Err(error))),
        Ok(outcome) => override_settled(s, o, outcome),
    }
}

/// Starts to enforce a decision. Where nothing is enforced, it counts as carried out.
pub open spec fn override_started(s: StateView, o: OverridingView) -> (
    StateView,
    OverrideStepView,
) {
    if dry_run(s) {
        override_settled(
            with_entries(s, seq![preview_entry(o.device, o.decision.action)]),
            o,
            EnforcementOutcome::Applied,
        )
    } else {
        (s, OverrideStepView::Authorize(o))
    }
}

/// How a request to override the device with a number starts.
pub open spec fn override_requested(s: StateView, id: u32, action: Action) -> (
    StateView,
    OverrideStepView,
) {
    let i = device_index(s.devices, id);
    if i < s.devices.len() {
        let device = s.devices[i].device;
        override_started(
            s,
            OverridingView {
                id,
                device,
                decision: manual_decision(device.id, action),
                previous_action: s.devices[i].decision.action,
                clears: false,
            },
        )
    } else {
        (s, OverrideStepView::Done(Err(unknown_id(id))))
    }
}

/// How a request to clear the override of the device with a number starts. The policy decides
/// about the device again.
pub open spec fn clear_requested(s: StateView, id: u32) -> (StateView, OverrideStepView) {
    let i = device_index(s.devices, id);
    if i < s.devices.len() {
        let device = s.devices[i].device;
        override_started(
            s,
            OverridingView {
                id,
                device,
                decision: policy_decision(s.policy, device),
                previous_action: s.devices[i].decision.action,
                clears: true,
            },
        )
    } else {
        (s, OverrideStepView::Done(Err(unknown_id(id))))
    }
}

fn disappeared_error(id: u32, before: &str) -> (r: Error)
    ensures
        r@ == disappeared(id, before@),
{
    let mut message = "device id ".to_owned();
    let number = decimal_string(id as u64);
    message.append(number.as_str());
    message.append(" disappeared before ");
    message.append(before);
    Error::Protocol(message)
}

fn settle(state: &mut State, o: Overriding, outcome: EnforcementOutcome) -> (r: OverrideStep)
    requires
        old(state).wf(),
        present(old(state)@.devices, device_key(o@.device)),
    ensures
        final(state).wf(),
        (final(state)@, r@) == override_settled(old(state)@, o@, outcome),
        r is Done,
{
    if outcome == EnforcementOutcome::DeviceGone {
        if o.clears {
            state.remove_override(&o.device);
            return OverrideStep::Done(
                Err(disappeared_error(o.id, "policy could be reapplied")),
            );
        }
        return OverrideStep::Done(
            Err(disappeared_error(o.id, "manual override could be applied")),
        );
    }
    let ghost before = state@;
    state.record_device_decision(o.id, o.decision.clone());
    if o.clears {
        state.remove_override(&o.device);
        let records = log_override_cleared(&o.device, Some(o.previous_action), &o.decision);
        state.note_records(records);
    } else {
        proof {
            let key = device_key(o@.device);
            let j = choose|j: int|
                0 <= j < before.devices.len() && device_key((#[trigger] before.devices[j]).device)
                    == key;
            crate::sequence::lemma_first_index(before.devices, super::state::has_id(o.id));
            assert(device_key(state@.devices[j].device) == key);
        }
        state.insert_override(&o.device, o.decision.action);
        let record = log_manual_override(&o.device, &o.decision);
        state.note(JournalEntry::Decision(record));
    }
    OverrideStep::Done(Ok(o.decision))
}

fn start(state: &mut State, o: Overriding) -> (r: OverrideStep)
    requires
        old(state).wf(),
        present(old(state)@.devices, device_key(o@.device)),
    ensures
        final(state).wf(),
        (final(state)@, r@) == override_started(old(state)@, o@),
        r.fits(final(state)@),
{
    if state.is_dry_run() {
        state.note(
            JournalEntry::Preview {
                device: DeviceSummary::of(&o.device),
                action: o.decision.action,
            },
        );
        let outcome = preview_authorization(&o.device, o.decision.action);
        settle(state, o, outcome)
    } else {
        match force_authorization(&o.device, o.decision.action) {
            Enforcement::Settled(outcome) => settle(state, o, outcome),
            Enforcement::Write(_) => OverrideStep::Authorize(o),
        }
    }
}

impl State {
    /// Starts to override what was decided about the device with a number.
    pub fn apply_override(&mut self, id: u32, action: Action) -> (r: OverrideStep)
        requires
            old(self).wf(),
        ensures
            final(self).wf(),
            (final(self)@, r@) == override_requested(old(self)@, id, action),
            r.fits(final(self)@),
    {
        let o = match self.device_by_id(id) {
            Err(error) => {
                return OverrideStep::Done(Err(error));
            },
            Ok(state) => Overriding {
                id,
                device: state.device.clone(),
                decision: Decision {
                    device_id: state.device.id,
                    action,
                    reason: "manual override".to_owned(),
                    rule: None,
                },
                previous_action: state.decision.action,
                clears: false,
            },
        };
        proof {
            let i = device_index(self@.devices, id);
            crate::sequence::lemma_first_index(self@.devices, super::state::has_id(id));
            assert(device_key(self@.devices[i].device) == device_key(o@.device));
        }
        start(self, o)
    }

    /// Starts to clear the override of the device with a number.
    pub fn clear_override(&mut self, id: u32) -> (r: OverrideStep)
        requires
            old(self).wf(),
        ensures
            final(self).wf(),
            (final(self)@, r@) == clear_requested(old(self)@, id),
            r.fits(final(self)@),
    {
        let o = match self.device_by_id(id) {
            Err(error) => {
                return OverrideStep::Done(Err(error));
            },
            Ok(state) => Overriding {
                id,
                device: state.device.clone(),
                decision: self.active_policy().decide(&state.device),
                previous_action: state.decision.action,
                clears: true,
            },
        };
        proof {
            let i = device_index(self@.devices, id);
            crate::sequence::lemma_first_index(self@.devices, super::state::has_id(id));
            assert(device_key(self@.devices[i].device) == device_key(o@.device));
        }
        start(self, o)
    }
}

impl Overriding {
    /// What has to be written, and where.
    pub fn write(&self) -> (r: AuthorizedWrite)
        ensures
            r@ == authorized_write(self@.device, self@.decision.action),
    {
        write_for(&self.device, self.decision.action)
    }

    /// Goes on with what came of writing it.
    pub fn resume(self, state: &mut State, attempt: WriteAttempt) -> (r: OverrideStep)
        requires
            old(state).wf(),
            present(old(state)@.devices, device_key(self@.device)),
        ensures
            final(state).wf(),
            (final(state)@, r@) == override_attempted(old(state)@, self@, attempt),
            r is Done,
    {
        let write = self.write();
        match enforcement_outcome(write.path.as_str(), attempt) {
            Err(error) => OverrideStep::Done(Err(error)),
            Ok(outcome) => settle(state, self, outcome),
        }
    }
}

} // verus!
