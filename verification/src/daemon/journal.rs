//! What the daemon has to log, as plain values.
use super::changes::{
    device_summary, optional_text, DeviceChangeEvent, DeviceChangeEventView, DeviceChangeKind,
    DeviceSummary, DeviceSummaryView,
};
use crate::policy::{action_name, Action, Decision, DecisionView};
use crate::sysfs::controllers::{
    ControllerAuthorizationUpdate, ControllerAuthorizationUpdateView,
};
use crate::sysfs::{UsbDevice, UsbDeviceView};
use crate::text::same_text;
use vstd::prelude::*;

verus! {

/// Where a decision comes from that somebody asked for.
#[derive(Clone, Copy, Debug, PartialEq, Eq, Structural)]
pub enum ExplicitDecisionSource {
    PolicyRule,
    ManualOverride,
}

/// The name that a source is logged with.
pub open spec fn source_name(source: ExplicitDecisionSource) -> Seq<char> {
    match source {
        ExplicitDecisionSource::PolicyRule => "policy rule"@,
        ExplicitDecisionSource::ManualOverride => "manual override"@,
    }
}

impl ExplicitDecisionSource {
    pub fn as_str(self) -> (r: &'static str)
        ensures
            r@ == source_name(self),
    {
        match self {
            ExplicitDecisionSource::PolicyRule => "policy rule",
            ExplicitDecisionSource::ManualOverride => "manual override",
        }
    }
}

/// Where a decision comes from: a rule, where it names one, or else an override, where its reason
/// says so. A decision by default has no source.
pub open spec fn decision_source(reason: Option<Seq<char>>, rule: Option<Seq<char>>) -> Option<
    ExplicitDecisionSource,
> {
    if rule is Some {
        Some(ExplicitDecisionSource::PolicyRule)
    } else if reason == Some("manual override"@) {
        Some(ExplicitDecisionSource::ManualOverride)
    } else {
        None
    }
}

pub fn explicit_decision_source(reason: Option<&str>, rule: Option<&str>) -> (r: Option<
    ExplicitDecisionSource,
>)
    ensures
        r == decision_source(
            match reason {
                Some(text) => Some(text@),
                None => None,
            },
            match rule {
                Some(text) => Some(text@),
                None => None,
            },
        ),
{
    if rule.is_some() {
        return Some(ExplicitDecisionSource::PolicyRule);
    }
    match reason {
        Some(text) => {
            if same_text(text, "manual override") {
                Some(ExplicitDecisionSource::ManualOverride)
            } else {
                None
            }
        },
        None => None,
    }
}

// ---- Records ---------------------------------------------------------------------------------

#[derive(Clone, Copy, Debug, PartialEq, Eq, Structural)]
pub enum RecordKind {
    Connected,
    Removed,
    DecisionChanged,
    ExplicitlyAllowed,
    ExplicitlyBlocked,
    OverrideCleared,
}

/// The message of a record.
pub open spec fn record_message(kind: RecordKind) -> Seq<char> {
    match kind {
        RecordKind::Connected => "USB device connected"@,
        RecordKind::Removed => "USB device removed"@,
        RecordKind::DecisionChanged => "USB authorization decision changed"@,
        RecordKind::ExplicitlyAllowed => "USB device explicitly allowed"@,
        RecordKind::ExplicitlyBlocked => "USB device explicitly blocked"@,
        RecordKind::OverrideCleared =>
            "manual USB authorization override cleared; policy reapplied"@,
    }
}

impl RecordKind {
    pub fn message(self) -> (r: &'static str)
        ensures
            r@ == record_message(self),
    {
        match self {
            RecordKind::Connected => "USB device connected",
            RecordKind::Removed => "USB device removed",
            RecordKind::DecisionChanged => "USB authorization decision changed",
            RecordKind::ExplicitlyAllowed => "USB device explicitly allowed",
            RecordKind::ExplicitlyBlocked => "USB device explicitly blocked",
            RecordKind::OverrideCleared =>
                "manual USB authorization override cleared; policy reapplied",
        }
    }
}

/// One line of the log about a decision. A record has a former action, or a source, only where
/// its kind calls for one.
#[derive(Debug, PartialEq, Eq)]
pub struct LogRecord {
    pub kind: RecordKind,
    pub device: DeviceSummary,
    pub previous_action: Option<String>,
    pub action: String,
    pub source: Option<String>,
    pub reason: String,
    pub rule: String,
}

#[verifier::ext_equal]
pub struct LogRecordView {
    pub kind: RecordKind,
    pub device: DeviceSummaryView,
    pub previous_action: Option<Seq<char>>,
    pub action: Seq<char>,
    pub source: Option<Seq<char>>,
    pub reason: Seq<char>,
    pub rule: Seq<char>,
}

impl View for LogRecord {
    type V = LogRecordView;

    open spec fn view(&self) -> LogRecordView {
        LogRecordView {
            kind: self.kind,
            device: self.device@,
            previous_action: self.previous_action.deep_view(),
            action: self.action@,
            source: self.source.deep_view(),
            reason: self.reason@,
            rule: self.rule@,
        }
    }
}

impl DeepView for LogRecord {
    type V = LogRecordView;

    open spec fn deep_view(&self) -> LogRecordView {
        self@
    }
}

/// The name of a former action, or that it is not known.
pub open spec fn former_action(action: Option<Action>) -> Seq<char> {
    match action {
        Some(action) => action_name(action),
        None => "unknown"@,
    }
}

fn former_action_str(action: Option<Action>) -> (r: &'static str)
    ensures
        r@ == former_action(action),
{
    match action {
        Some(action) => action.as_str(),
        None => "unknown",
    }
}

fn owned_or_empty(value: &Option<String>) -> (r: String)
    ensures
        r@ == optional_text(value.deep_view()),
{
    match value {
        Some(text) => text.clone(),
        None => "".to_owned(),
    }
}

/// The kind of the record of a change.
pub open spec fn change_record_kind(kind: DeviceChangeKind) -> RecordKind {
    match kind {
        DeviceChangeKind::Connected => RecordKind::Connected,
        DeviceChangeKind::Removed => RecordKind::Removed,
        DeviceChangeKind::DecisionChanged => RecordKind::DecisionChanged,
    }
}

/// What is logged of a change.
pub open spec fn change_record(event: DeviceChangeEventView) -> LogRecordView {
    LogRecordView {
        kind: change_record_kind(event.kind),
        device: event.device,
        previous_action: if event.kind == DeviceChangeKind::DecisionChanged {
            Some(former_action(event.previous_action))
        } else {
            None
        },
        action: action_name(event.action),
        source: None,
        reason: event.reason,
        rule: optional_text(event.rule),
    }
}

/// What is logged of a decision that somebody asked for.
pub open spec fn explicit_record(
    device: DeviceSummaryView,
    action: Action,
    source: ExplicitDecisionSource,
    reason: Seq<char>,
    rule: Seq<char>,
) -> LogRecordView {
    LogRecordView {
        kind: match action {
            Action::Allow => RecordKind::ExplicitlyAllowed,
            Action::Block => RecordKind::ExplicitlyBlocked,
        },
        device,
        previous_action: None,
        action: action_name(action),
        source: Some(source_name(source)),
        reason,
        rule,
    }
}

/// What is logged beside a change, where the decision was asked for and the device is there.
pub open spec fn explicit_change_record(event: DeviceChangeEventView) -> Option<LogRecordView> {
    match decision_source(Some(event.reason), event.rule) {
        Some(source) if event.kind != DeviceChangeKind::Removed => Some(
            explicit_record(
                event.device,
                event.action,
                source,
                event.reason,
                optional_text(event.rule),
            ),
        ),
        _ => None,
    }
}

/// What is logged of a manual override.
pub open spec fn override_record(device: UsbDeviceView, decision: DecisionView) -> LogRecordView {
    explicit_record(
        device_summary(device),
        decision.action,
        ExplicitDecisionSource::ManualOverride,
        decision.reason,
        optional_text(decision.rule),
    )
}

/// What is logged when an override is cleared: that it was, and the decision that takes its
/// place where a rule asks for that one.
pub open spec fn cleared_records(
    device: UsbDeviceView,
    previous_action: Option<Action>,
    decision: DecisionView,
) -> Seq<LogRecordView> {
    let cleared = LogRecordView {
        kind: RecordKind::OverrideCleared,
        device: device_summary(device),
        previous_action: Some(former_action(previous_action)),
        action: action_name(decision.action),
        source: None,
        reason: decision.reason,
        rule: optional_text(decision.rule),
    };
    match decision_source(Some(decision.reason), decision.rule) {
        Some(source) => seq![
            cleared,
            explicit_record(
                device_summary(device),
                decision.action,
                source,
                decision.reason,
                optional_text(decision.rule),
            ),
        ],
        None => seq![cleared],
    }
}

/// What is logged of a change.
pub fn log_device_change(event: &DeviceChangeEvent) -> (r: LogRecord)
    ensures
        r@ == change_record(event@),
{
    let kind = match event.kind {
        DeviceChangeKind::Connected => RecordKind::Connected,
        DeviceChangeKind::Removed => RecordKind::Removed,
        DeviceChangeKind::DecisionChanged => RecordKind::DecisionChanged,
    };
    let previous_action = if event.kind == DeviceChangeKind::DecisionChanged {
        Some(former_action_str(event.previous_action).to_owned())
    } else {
        None
    };
    LogRecord {
        kind,
        device: event.device.clone(),
        previous_action,
        action: event.action.as_str().to_owned(),
        source: None,
        reason: event.reason.clone(),
        rule: owned_or_empty(&event.rule),
    }
}

/// What is logged of a decision that somebody asked for.
pub fn log_explicit_decision(
    device: &DeviceSummary,
    action: Action,
    source: ExplicitDecisionSource,
    reason: &str,
    rule: &str,
) -> (r: LogRecord)
    ensures
        r@ == explicit_record(device@, action, source, reason@, rule@),
{
    let kind = match action {
        Action::Allow => RecordKind::ExplicitlyAllowed,
        Action::Block => RecordKind::ExplicitlyBlocked,
    };
    LogRecord {
        kind,
        device: device.clone(),
        previous_action: None,
        action: action.as_str().to_owned(),
        source: Some(source.as_str().to_owned()),
        reason: reason.to_owned(),
        rule: rule.to_owned(),
    }
}

fn source_of(reason: &String, rule: &Option<String>) -> (r: Option<ExplicitDecisionSource>)
    ensures
        r == decision_source(Some(reason@), rule.deep_view()),
{
    match rule {
        Some(rule) => explicit_decision_source(Some(reason.as_str()), Some(rule.as_str())),
        None => explicit_decision_source(Some(reason.as_str()), None),
    }
}

/// What is logged beside a change, where the decision was asked for and the device is there.
pub fn log_explicit_device_decision(event: &DeviceChangeEvent) -> (r: Option<LogRecord>)
    ensures
        r.deep_view() == explicit_change_record(event@),
{
    if event.kind == DeviceChangeKind::Removed {
        return None;
    }
    match source_of(&event.reason, &event.rule) {
        None => None,
        Some(source) => {
            let rule = owned_or_empty(&event.rule);
            Some(
                log_explicit_decision(
                    &event.device,
                    event.action,
                    source,
                    event.reason.as_str(),
                    rule.as_str(),
                ),
            )
        },
    }
}

/// What is logged of a manual override.
pub fn log_manual_override(device: &UsbDevice, decision: &Decision) -> (r: LogRecord)
    ensures
        r@ == override_record(device@, decision@),
{
    let summary = DeviceSummary::of(device);
    let rule = owned_or_empty(&decision.rule);
    log_explicit_decision(
        &summary,
        decision.action,
        ExplicitDecisionSource::ManualOverride,
        decision.reason.as_str(),
        rule.as_str(),
    )
}

/// What is logged when an override is cleared.
pub fn log_override_cleared(
    device: &UsbDevice,
    previous_action: Option<Action>,
    decision: &Decision,
) -> (r: Vec<LogRecord>)
    ensures
        r.deep_view() == cleared_records(device@, previous_action, decision@),
{
    let summary = DeviceSummary::of(device);
    let rule = owned_or_empty(&decision.rule);
    let cleared = LogRecord {
        kind: RecordKind::OverrideCleared,
        device: summary.clone(),
        previous_action: Some(former_action_str(previous_action).to_owned()),
        action: decision.action.as_str().to_owned(),
        source: None,
        reason: decision.reason.clone(),
        rule: rule.clone(),
    };
    let mut records: Vec<LogRecord> = Vec::new();
    records.push(cleared);
    if let Some(source) = source_of(&decision.reason, &decision.rule) {
        records.push(
            log_explicit_decision(
                &summary,
                decision.action,
                source,
                decision.reason.as_str(),
                rule.as_str(),
            ),
        );
    }
    assert(records.deep_view() =~= cleared_records(device@, previous_action, decision@));
    records
}

// ---- The journal -----------------------------------------------------------------------------

/// One entry of what the daemon has to log.
#[derive(Debug, PartialEq, Eq)]
pub enum JournalEntry {
    Decision(LogRecord),
    /// A controller was set to another value, or would be were anything enforced.
    Controller { update: ControllerAuthorizationUpdate, applied: bool },
    /// An action would be carried out on a device were anything enforced.
    Preview { device: DeviceSummary, action: Action },
    /// A device went before the action could be carried out on it.
    DeviceGone(DeviceSummary),
}

#[verifier::ext_equal]
pub enum JournalEntryView {
    Decision(LogRecordView),
    Controller { update: ControllerAuthorizationUpdateView, applied: bool },
    Preview { device: DeviceSummaryView, action: Action },
    DeviceGone(DeviceSummaryView),
}

impl View for JournalEntry {
    type V = JournalEntryView;

    open spec fn view(&self) -> JournalEntryView {
        match self {
            JournalEntry::Decision(record) => JournalEntryView::Decision(record@),
            JournalEntry::Controller { update, applied } => JournalEntryView::Controller {
                update: update@,
                applied: *applied,
            },
            JournalEntry::Preview { device, action } => JournalEntryView::Preview {
                device: device@,
                action: *action,
            },
            JournalEntry::DeviceGone(device) => JournalEntryView::DeviceGone(device@),
        }
    }
}

impl DeepView for JournalEntry {
    type V = JournalEntryView;

    open spec fn deep_view(&self) -> JournalEntryView {
        self@
    }
}

/// The entries of one change.
pub open spec fn change_entries(event: DeviceChangeEventView) -> Seq<JournalEntryView> {
    let change = JournalEntryView::Decision(change_record(event));
    match explicit_change_record(event) {
        Some(record) => seq![change, JournalEntryView::Decision(record)],
        None => seq![change],
    }
}

/// The entries of some changes.
pub open spec fn changes_entries(events: Seq<DeviceChangeEventView>) -> Seq<JournalEntryView>
    decreases events.len(),
{
    if events.len() == 0 {
        Seq::empty()
    } else {
        changes_entries(events.drop_last()) + change_entries(events.last())
    }
}

/// The entries of some updates of controllers.
pub open spec fn controller_entries(
    updates: Seq<ControllerAuthorizationUpdateView>,
    applied: bool,
) -> Seq<JournalEntryView> {
    Seq::new(updates.len(), |i: int| JournalEntryView::Controller { update: updates[i], applied })
}

/// The entries of some records.
pub open spec fn record_entries(records: Seq<LogRecordView>) -> Seq<JournalEntryView> {
    Seq::new(records.len(), |i: int| JournalEntryView::Decision(records[i]))
}

/// The entry of an action that would be carried out.
pub open spec fn preview_entry(device: UsbDeviceView, action: Action) -> JournalEntryView {
    JournalEntryView::Preview { device: device_summary(device), action }
}

/// Adds one entry.
pub fn note(journal: &mut Vec<JournalEntry>, entry: JournalEntry)
    ensures
        final(journal).deep_view() == old(journal).deep_view().push(entry@),
{
    let ghost before = journal.deep_view();
    let ghost added = entry@;
    journal.push(entry);
    assert(journal.deep_view() =~= before.push(added));
}

/// Adds the entries of some changes.
pub fn note_changes(journal: &mut Vec<JournalEntry>, events: &Vec<DeviceChangeEvent>)
    ensures
        final(journal).deep_view() == old(journal).deep_view() + changes_entries(
            events.deep_view(),
        ),
{
    let ghost start = journal.deep_view();
    let ghost all = events.deep_view();
    proof {
        assert(all.take(0) =~= Seq::empty());
        assert(start + changes_entries(all.take(0)) =~= start);
    }
    for i in 0..events.len()
        invariant
            all == events.deep_view(),
            journal.deep_view() == start + changes_entries(all.take(i as int)),
    {
        let ghost before = changes_entries(all.take(i as int));
        proof {
            assert(all.take(i + 1).drop_last() =~= all.take(i as int));
            assert(all[i as int] == events@[i as int]@);
        }
        note(journal, JournalEntry::Decision(log_device_change(&events[i])));
        if let Some(record) = log_explicit_device_decision(&events[i]) {
            note(journal, JournalEntry::Decision(record));
        }
        assert(journal.deep_view() =~= start + (before + change_entries(all[i as int])));
    }
    assert(all.take(all.len() as int) =~= all);
}

/// Adds the entries of some updates of controllers.
pub fn note_controllers(
    journal: &mut Vec<JournalEntry>,
    updates: Vec<ControllerAuthorizationUpdate>,
    applied: bool,
)
    ensures
        final(journal).deep_view() == old(journal).deep_view() + controller_entries(
            updates.deep_view(),
            applied,
        ),
{
    let ghost start = journal.deep_view();
    let ghost all = updates.deep_view();
    assert(start + controller_entries(all.take(0), applied) =~= start);
    for i in 0..updates.len()
        invariant
            all == updates.deep_view(),
            journal.deep_view() == start + controller_entries(all.take(i as int), applied),
    {
        assert(all[i as int] == updates@[i as int]@);
        note(journal, JournalEntry::Controller { update: updates[i].clone(), applied });
        assert(journal.deep_view() =~= start + controller_entries(all.take(i + 1), applied));
    }
    assert(all.take(all.len() as int) =~= all);
}

/// Adds the entries of some records.
pub fn note_records(journal: &mut Vec<JournalEntry>, records: Vec<LogRecord>)
    ensures
        final(journal).deep_view() == old(journal).deep_view() + record_entries(
            records.deep_view(),
        ),
{
    let ghost start = journal.deep_view();
    let ghost all = records.deep_view();
    let mut rest = records;
    let ghost mut done: int = 0;
    proof {
        assert(start + record_entries(all.take(0)) =~= start);
        assert(rest.deep_view() =~= all.skip(0));
    }
    while rest.len() > 0
        invariant
            0 <= done <= all.len(),
            rest.deep_view() == all.skip(done),
            journal.deep_view() == start + record_entries(all.take(done)),
        decreases rest.len(),
    {
        let ghost before = rest.deep_view();
        assert(before.len() == rest@.len());
        let record = rest.remove(0);
        proof {
            assert(before[0] == record@);
            assert(all.skip(done)[0] == all[done]);
            assert(rest.deep_view() =~= before.drop_first());
            assert(before.drop_first() =~= all.skip(done + 1));
        }
        note(journal, JournalEntry::Decision(record));
        proof {
            assert(journal.deep_view() =~= start + record_entries(all.take(done + 1)));
            done = done + 1;
        }
    }
    assert(all.take(done) =~= all);
}

} // verus!
