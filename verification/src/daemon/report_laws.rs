//! What is reported and logged of devices, told by the devices.
use super::changes::{
    change_events, device_summary, event_about, former_event, has_key, last_with_key,
    law_changes_are_reported, present_event, DeviceChangeEventView, DeviceChangeKind,
};
use super::identity::device_key;
use super::identity_laws::law_identity_is_four_facts;
use super::journal::{
    change_entries, change_record, changes_entries, cleared_records, override_record,
    record_message, JournalEntryView, RecordKind,
};
use super::state::{committed, SnapshotView, StateView};
use crate::device::DeviceStateView;
use crate::policy::{Action, DecisionView};
use crate::sequence::{last_index, lemma_last_index, lemma_last_index_is};
use crate::sysfs::UsbDeviceView;
use vstd::prelude::*;

verus! {

// ---- Changes ---------------------------------------------------------------------------------

/// Two devices agree in sysfs path, vendor id, product id and serial.
pub open spec fn same_device(a: UsbDeviceView, b: UsbDeviceView) -> bool {
    a.sysfs_path == b.sysfs_path && a.vendor_id == b.vendor_id && a.product_id == b.product_id
        && a.serial == b.serial
}

/// A device is among some others.
pub open spec fn is_among(device: UsbDeviceView, devices: Seq<DeviceStateView>) -> bool {
    exists|i: int| 0 <= i < devices.len() && same_device((#[trigger] devices[i]).device, device)
}

/// An event is about a device as it is, or was last.
pub open spec fn is_about(event: DeviceChangeEventView, state: DeviceStateView) -> bool {
    &&& event.device.id == state.device.id
    &&& event.device.port_path == state.device.port_path
    &&& event.device.vendor_id == state.device.vendor_id
    &&& event.device.product_id == state.device.product_id
    &&& event.device.product_name == state.device.product_name
    &&& event.device.serial == state.device.serial
    &&& event.device.is_hub == state.device.is_hub
    &&& event.action == state.decision.action
    &&& event.reason == state.decision.reason
    &&& event.rule == state.decision.rule
}

proof fn lemma_among(device: UsbDeviceView, devices: Seq<DeviceStateView>)
    ensures
        last_with_key(devices, device_key(device)) is Some <==> is_among(device, devices),
        last_with_key(devices, device_key(device)) matches Some(state) ==> devices.contains(state)
            && same_device(state.device, device),
{
    let f = has_key(device_key(device));
    lemma_last_index(devices, f);
    let k = last_index(devices, f);
    if k >= 0 {
        law_identity_is_four_facts(devices[k].device, device);
        assert(same_device(devices[k].device, device));
    }
    if is_among(device, devices) {
        let i = choose|i: int|
            0 <= i < devices.len() && same_device((#[trigger] devices[i]).device, device);
        law_identity_is_four_facts(devices[i].device, device);
        assert(f(devices[i]));
    }
}

/// A device is reported to have come exactly where it is there now and no device with its sysfs
/// path, vendor id, product id and serial was there before.
pub proof fn law_new_devices_are_reported(
    previous: Seq<DeviceStateView>,
    current: Seq<DeviceStateView>,
    event: DeviceChangeEventView,
)
    requires
        event.kind == DeviceChangeKind::Connected,
    ensures
        change_events(previous, current).contains(event) <==> exists|j: int|
            0 <= j < current.len() && is_about(event, #[trigger] current[j])
                && event.previous_action is None && !is_among(current[j].device, previous),
{
    law_changes_are_reported(previous, current, event);
    assert forall|j: int| 0 <= j < current.len() implies (present_event(
        previous,
        #[trigger] current[j],
    ) == Some(event)) == (is_about(event, current[j]) && event.previous_action is None && !is_among(
        current[j].device,
        previous,
    )) by {
        lemma_among(current[j].device, previous);
        if is_about(event, current[j]) && event.previous_action is None {
            assert(event =~= event_about(DeviceChangeKind::Connected, current[j], None));
        }
    }
}

/// A device is reported to have gone exactly where it was there before and no device with its
/// sysfs path, vendor id, product id and serial is there now.
pub proof fn law_gone_devices_are_reported(
    previous: Seq<DeviceStateView>,
    current: Seq<DeviceStateView>,
    event: DeviceChangeEventView,
)
    requires
        event.kind == DeviceChangeKind::Removed,
    ensures
        change_events(previous, current).contains(event) <==> exists|j: int|
            0 <= j < previous.len() && is_about(event, #[trigger] previous[j])
                && event.previous_action is None && !is_among(previous[j].device, current),
{
    law_changes_are_reported(previous, current, event);
    assert forall|j: int| 0 <= j < previous.len() implies (former_event(
        current,
        #[trigger] previous[j],
    ) == Some(event)) == (is_about(event, previous[j]) && event.previous_action is None
        && !is_among(previous[j].device, current)) by {
        lemma_among(previous[j].device, current);
        if is_about(event, previous[j]) && event.previous_action is None {
            assert(event =~= event_about(DeviceChangeKind::Removed, previous[j], None));
        }
    }
}

/// A device is reported to be decided otherwise exactly where it was there before with another
/// action, which is reported too. Devices that agree in sysfs path, vendor id, product id and
/// serial are not there twice.
pub proof fn law_changed_decisions_are_reported(
    previous: Seq<DeviceStateView>,
    current: Seq<DeviceStateView>,
    event: DeviceChangeEventView,
)
    requires
        event.kind == DeviceChangeKind::DecisionChanged,
        forall|i: int, j: int|
            0 <= i < j < previous.len() ==> !same_device(
                (#[trigger] previous[i]).device,
                (#[trigger] previous[j]).device,
            ),
    ensures
        change_events(previous, current).contains(event) <==> exists|i: int, j: int|
            0 <= i < previous.len() && 0 <= j < current.len() && is_about(
                event,
                #[trigger] current[j],
            ) && same_device((#[trigger] previous[i]).device, current[j].device)
                && event.previous_action == Some(previous[i].decision.action)
                && previous[i].decision.action != current[j].decision.action,
{
    law_changes_are_reported(previous, current, event);
    if change_events(previous, current).contains(event) {
        let j = choose|j: int|
            0 <= j < current.len() && present_event(previous, #[trigger] current[j]) == Some(event);
        lemma_among(current[j].device, previous);
        let before = last_with_key(previous, device_key(current[j].device))->0;
        let i = choose|i: int| 0 <= i < previous.len() && previous[i] == before;
        assert(same_device(previous[i].device, current[j].device));
        assert(is_about(event, current[j]));
    }
    if exists|i: int, j: int|
        0 <= i < previous.len() && 0 <= j < current.len() && is_about(event, #[trigger] current[j])
            && same_device((#[trigger] previous[i]).device, current[j].device)
            && event.previous_action == Some(previous[i].decision.action)
            && previous[i].decision.action != current[j].decision.action {
        let (i, j) = choose|i: int, j: int|
            0 <= i < previous.len() && 0 <= j < current.len() && is_about(
                event,
                #[trigger] current[j],
            ) && same_device((#[trigger] previous[i]).device, current[j].device)
                && event.previous_action == Some(previous[i].decision.action)
                && previous[i].decision.action != current[j].decision.action;
        let key = device_key(current[j].device);
        law_identity_is_four_facts(previous[i].device, current[j].device);
        assert forall|k: int| i < k < previous.len() implies !has_key(key)(
            #[trigger] previous[k],
        ) by {
            law_identity_is_four_facts(previous[k].device, current[j].device);
            assert(!same_device(previous[i].device, previous[k].device));
        }
        lemma_last_index_is(previous, has_key(key), i);
        assert(last_with_key(previous, key) == Some(previous[i]));
        assert(event =~= event_about(
            DeviceChangeKind::DecisionChanged,
            current[j],
            Some(previous[i].decision.action),
        ));
        assert(present_event(previous, current[j]) == Some(event));
    }
}

// ---- The log ---------------------------------------------------------------------------------

/// The name of an action, as it is logged.
pub open spec fn named(action: Action) -> Seq<char> {
    if action == Action::Allow {
        "allow"@
    } else {
        "block"@
    }
}

/// The text of a rule, as it is logged.
pub open spec fn rule_logged(rule: Option<Seq<char>>) -> Seq<char> {
    if rule is Some {
        rule->0
    } else {
        Seq::empty()
    }
}

/// Of every change it is logged what it was, about which device, with which action, reason and
/// rule; of a changed decision also what the action was before. The change of a device that is
/// there is followed by one more line exactly where a rule made the decision, or an override did.
pub proof fn law_changes_are_logged(event: DeviceChangeEventView)
    ensures
        ({
            let entries = change_entries(event);
            let by_rule = event.rule is Some;
            let by_hand = event.rule is None && event.reason == "manual override"@;
            let explicit = event.kind != DeviceChangeKind::Removed && (by_rule || by_hand);
            &&& entries.len() == (if explicit {
                2int
            } else {
                1
            })
            &&& entries[0] matches JournalEntryView::Decision(record) && {
                &&& record.device == event.device
                &&& record.action == named(event.action)
                &&& record.reason == event.reason
                &&& record.rule == rule_logged(event.rule)
                &&& record.source is None
                &&& event.kind == DeviceChangeKind::Connected ==> record.kind
                    == RecordKind::Connected && record.previous_action is None
                &&& event.kind == DeviceChangeKind::Removed ==> record.kind == RecordKind::Removed
                    && record.previous_action is None
                &&& event.kind == DeviceChangeKind::DecisionChanged ==> {
                    &&& record.kind == RecordKind::DecisionChanged
                    &&& event.previous_action matches Some(action) ==> record.previous_action
                        == Some(named(action))
                    &&& event.previous_action is None ==> record.previous_action == Some(
                        "unknown"@,
                    )
                }
            }
            &&& explicit ==> (entries[1] matches JournalEntryView::Decision(record) && {
                &&& record.device == event.device
                &&& record.action == named(event.action)
                &&& record.reason == event.reason
                &&& record.rule == rule_logged(event.rule)
                &&& record.kind == (if event.action == Action::Allow {
                    RecordKind::ExplicitlyAllowed
                } else {
                    RecordKind::ExplicitlyBlocked
                })
                &&& by_rule ==> record.source == Some("policy rule"@)
                &&& by_hand ==> record.source == Some("manual override"@)
            })
        }),
{
    reveal_strlit("");
    assert(""@ =~= Seq::<char>::empty());
}

/// Of an override it is logged that the device was explicitly allowed or blocked by hand.
pub proof fn law_overrides_are_logged(device: UsbDeviceView, decision: DecisionView)
    ensures
        override_record(device, decision).kind == (if decision.action == Action::Allow {
            RecordKind::ExplicitlyAllowed
        } else {
            RecordKind::ExplicitlyBlocked
        }),
        override_record(device, decision).device == device_summary(device),
        override_record(device, decision).action == named(decision.action),
        override_record(device, decision).source == Some("manual override"@),
        override_record(device, decision).reason == decision.reason,
{
}

/// Of an override that was cleared it is logged what the action was and what the policy makes it.
pub proof fn law_cleared_overrides_are_logged(
    device: UsbDeviceView,
    previous: Action,
    decision: DecisionView,
)
    ensures
        ({
            let records = cleared_records(device, Some(previous), decision);
            &&& records.len() >= 1
            &&& records[0].kind == RecordKind::OverrideCleared
            &&& records[0].device == device_summary(device)
            &&& records[0].previous_action == Some(named(previous))
            &&& records[0].action == named(decision.action)
            &&& records[0].reason == decision.reason
            &&& decision.rule is Some ==> records.len() == 2 && records[1].source == Some(
                "policy rule"@,
            ) && records[1].device == device_summary(device) && records[1].action == named(
                decision.action,
            )
            &&& decision.rule is None && decision.reason != "manual override"@ ==> records.len()
                == 1
        }),
{
}

/// Each kind of record has its message.
pub proof fn law_records_have_their_messages(kind: RecordKind)
    ensures
        kind == RecordKind::Connected ==> record_message(kind) == "USB device connected"@,
        kind == RecordKind::Removed ==> record_message(kind) == "USB device removed"@,
        kind == RecordKind::DecisionChanged ==> record_message(kind)
            == "USB authorization decision changed"@,
        kind == RecordKind::ExplicitlyAllowed ==> record_message(kind)
            == "USB device explicitly allowed"@,
        kind == RecordKind::ExplicitlyBlocked ==> record_message(kind)
            == "USB device explicitly blocked"@,
        kind == RecordKind::OverrideCleared ==> record_message(kind)
            == "manual USB authorization override cleared; policy reapplied"@,
{
}

/// The summary of a device is what was read of it.
pub proof fn law_summaries(d: UsbDeviceView)
    ensures
        device_summary(d).id == d.id,
        device_summary(d).port_path == d.port_path,
        device_summary(d).vendor_id == d.vendor_id,
        device_summary(d).product_id == d.product_id,
        device_summary(d).product_name == d.product_name,
        device_summary(d).serial == d.serial,
        device_summary(d).is_hub == d.is_hub,
{
}

/// When a snapshot comes into force, every change is logged, in the order of the changes, behind
/// what has to be logged already.
pub proof fn law_every_change_is_logged(s: StateView, snapshot: SnapshotView)
    ensures
        ({
            let events = change_events(s.devices, snapshot.devices);
            let journal = committed(s, snapshot).journal;
            &&& journal.len() >= s.journal.len() + events.len()
            &&& journal.take(s.journal.len() as int) == s.journal
            &&& forall|i: int|
                0 <= i < events.len() ==> journal.skip(s.journal.len() as int).contains(
                    JournalEntryView::Decision(change_record(#[trigger] events[i])),
                )
        }),
{
    let events = change_events(s.devices, snapshot.devices);
    let added = changes_entries(events);
    let journal = committed(s, snapshot).journal;
    assert(journal.take(s.journal.len() as int) =~= s.journal);
    assert(journal.skip(s.journal.len() as int) =~= added);
    lemma_logged(events);
}

proof fn lemma_logged(events: Seq<DeviceChangeEventView>)
    ensures
        changes_entries(events).len() >= events.len(),
        forall|i: int|
            0 <= i < events.len() ==> changes_entries(events).contains(
                JournalEntryView::Decision(change_record(#[trigger] events[i])),
            ),
    decreases events.len(),
{
    if events.len() > 0 {
        let rest = events.drop_last();
        lemma_logged(rest);
        let before = changes_entries(rest);
        let own = change_entries(events.last());
        let all = before + own;
        assert forall|i: int| 0 <= i < events.len() implies all.contains(
            JournalEntryView::Decision(change_record(#[trigger] events[i])),
        ) by {
            let entry = JournalEntryView::Decision(change_record(events[i]));
            if i < rest.len() {
                assert(rest[i] == events[i]);
                let k = choose|k: int| 0 <= k < before.len() && before[k] == entry;
                assert(all[k] == entry);
            } else {
                assert(own[0] == entry);
                assert(all[before.len() as int] == entry);
            }
        }
    }
}

} // verus!
