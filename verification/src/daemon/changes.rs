//! What changed between two scans, and what is logged about it.
use super::identity::{device_key, DeviceKey, DeviceKeyView};
use crate::device::{DeviceState, DeviceStateView};
use crate::policy::Action;
use crate::sequence::{last_index, lemma_last_index, lemma_last_index_is};
use crate::sysfs::{UsbDevice, UsbDeviceView};
use vstd::prelude::*;

verus! {

#[derive(Clone, Copy, Debug, PartialEq, Eq, Structural)]
pub enum DeviceChangeKind {
    Connected,
    Removed,
    DecisionChanged,
}

/// The part of a device that is logged.
#[derive(Debug, PartialEq, Eq)]
pub struct DeviceSummary {
    pub id: u32,
    pub port_path: String,
    pub vendor_id: String,
    pub product_id: String,
    pub product_name: Option<String>,
    pub serial: Option<String>,
    pub is_hub: bool,
}

/// A device that came or went, or whose decision is another one.
#[derive(Debug, PartialEq, Eq)]
pub struct DeviceChangeEvent {
    pub kind: DeviceChangeKind,
    pub device: DeviceSummary,
    pub action: Action,
    pub previous_action: Option<Action>,
    pub reason: String,
    pub rule: Option<String>,
}

#[verifier::ext_equal]
pub struct DeviceSummaryView {
    pub id: u32,
    pub port_path: Seq<char>,
    pub vendor_id: Seq<char>,
    pub product_id: Seq<char>,
    pub product_name: Option<Seq<char>>,
    pub serial: Option<Seq<char>>,
    pub is_hub: bool,
}

#[verifier::ext_equal]
pub struct DeviceChangeEventView {
    pub kind: DeviceChangeKind,
    pub device: DeviceSummaryView,
    pub action: Action,
    pub previous_action: Option<Action>,
    pub reason: Seq<char>,
    pub rule: Option<Seq<char>>,
}

impl View for DeviceSummary {
    type V = DeviceSummaryView;

    open spec fn view(&self) -> DeviceSummaryView {
        DeviceSummaryView {
            id: self.id,
            port_path: self.port_path@,
            vendor_id: self.vendor_id@,
            product_id: self.product_id@,
            product_name: self.product_name.deep_view(),
            serial: self.serial.deep_view(),
            is_hub: self.is_hub,
        }
    }
}

impl View for DeviceChangeEvent {
    type V = DeviceChangeEventView;

    open spec fn view(&self) -> DeviceChangeEventView {
        DeviceChangeEventView {
            kind: self.kind,
            device: self.device@,
            action: self.action,
            previous_action: self.previous_action,
            reason: self.reason@,
            rule: self.rule.deep_view(),
        }
    }
}

impl DeepView for DeviceChangeEvent {
    type V = DeviceChangeEventView;

    open spec fn deep_view(&self) -> DeviceChangeEventView {
        self@
    }
}

impl Clone for DeviceSummary {
    fn clone(&self) -> (r: Self)
        ensures
            r@ == self@,
    {
        DeviceSummary {
            id: self.id,
            port_path: self.port_path.clone(),
            vendor_id: self.vendor_id.clone(),
            product_id: self.product_id.clone(),
            product_name: self.product_name.clone(),
            serial: self.serial.clone(),
            is_hub: self.is_hub,
        }
    }
}

/// The part of a device that is logged.
pub open spec fn device_summary(d: UsbDeviceView) -> DeviceSummaryView {
    DeviceSummaryView {
        id: d.id,
        port_path: d.port_path,
        vendor_id: d.vendor_id,
        product_id: d.product_id,
        product_name: d.product_name,
        serial: d.serial,
        is_hub: d.is_hub,
    }
}

/// A text, or the empty one where there is none.
pub open spec fn optional_text(value: Option<Seq<char>>) -> Seq<char> {
    match value {
        Some(text) => text,
        None => ""@,
    }
}

fn optional_str(value: &Option<String>) -> (r: &str)
    ensures
        r@ == optional_text(value.deep_view()),
{
    match value {
        Some(text) => text.as_str(),
        None => "",
    }
}

impl DeviceSummary {
    pub fn of(device: &UsbDevice) -> (r: Self)
        ensures
            r@ == device_summary(device@),
    {
        DeviceSummary {
            id: device.id,
            port_path: device.port_path.clone(),
            vendor_id: device.vendor_id.clone(),
            product_id: device.product_id.clone(),
            product_name: device.product_name.clone(),
            serial: device.serial.clone(),
            is_hub: device.is_hub,
        }
    }

    /// The product's name, as it is logged.
    pub fn product_name(&self) -> (r: &str)
        ensures
            r@ == optional_text(self@.product_name),
    {
        optional_str(&self.product_name)
    }

    /// The serial number, as it is logged.
    pub fn serial(&self) -> (r: &str)
        ensures
            r@ == optional_text(self@.serial),
    {
        optional_str(&self.serial)
    }
}

// ---- Events ----------------------------------------------------------------------------------

/// The predicate that a device has an identity.
pub open spec fn has_key(key: DeviceKeyView) -> spec_fn(DeviceStateView) -> bool {
    |state: DeviceStateView| device_key(state.device) == key
}

/// The last of the devices with an identity, where there is one.
pub open spec fn last_with_key(devices: Seq<DeviceStateView>, key: DeviceKeyView) -> Option<
    DeviceStateView,
> {
    let i = last_index(devices, has_key(key));
    if i >= 0 {
        Some(devices[i])
    } else {
        None
    }
}

/// The event of a kind about a device.
pub open spec fn event_about(
    kind: DeviceChangeKind,
    state: DeviceStateView,
    previous_action: Option<Action>,
) -> DeviceChangeEventView {
    DeviceChangeEventView {
        kind,
        device: device_summary(state.device),
        action: state.decision.action,
        previous_action,
        reason: state.decision.reason,
        rule: state.decision.rule,
    }
}

/// What is to be said of a device that is there: that it was not there before, or that the action
/// is another one.
pub open spec fn present_event(
    previous: Seq<DeviceStateView>,
    state: DeviceStateView,
) -> Option<DeviceChangeEventView> {
    match last_with_key(previous, device_key(state.device)) {
        None => Some(event_about(DeviceChangeKind::Connected, state, None)),
        Some(before) => if before.decision.action != state.decision.action {
            Some(
                event_about(
                    DeviceChangeKind::DecisionChanged,
                    state,
                    Some(before.decision.action),
                ),
            )
        } else {
            None
        },
    }
}

/// What is to be said of a device that was there: that it is no longer.
pub open spec fn former_event(
    current: Seq<DeviceStateView>,
    state: DeviceStateView,
) -> Option<DeviceChangeEventView> {
    match last_with_key(current, device_key(state.device)) {
        None => Some(event_about(DeviceChangeKind::Removed, state, None)),
        Some(_) => None,
    }
}

/// A list with one more item, where there is one.
pub open spec fn with_event(
    events: Seq<DeviceChangeEventView>,
    event: Option<DeviceChangeEventView>,
) -> Seq<DeviceChangeEventView> {
    match event {
        Some(event) => events.push(event),
        None => events,
    }
}

/// What is to be said of the devices that are there, in their order.
pub open spec fn present_events(
    previous: Seq<DeviceStateView>,
    current: Seq<DeviceStateView>,
) -> Seq<DeviceChangeEventView>
    decreases current.len(),
{
    if current.len() == 0 {
        Seq::empty()
    } else {
        with_event(
            present_events(previous, current.drop_last()),
            present_event(previous, current.last()),
        )
    }
}

/// What is to be said of the devices that were there, in their order.
pub open spec fn former_events(
    previous: Seq<DeviceStateView>,
    current: Seq<DeviceStateView>,
) -> Seq<DeviceChangeEventView>
    decreases previous.len(),
{
    if previous.len() == 0 {
        Seq::empty()
    } else {
        with_event(
            former_events(previous.drop_last(), current),
            former_event(current, previous.last()),
        )
    }
}

/// What changed: first the devices that came or are decided otherwise, then those that went.
pub open spec fn change_events(
    previous: Seq<DeviceStateView>,
    current: Seq<DeviceStateView>,
) -> Seq<DeviceChangeEventView> {
    present_events(previous, current) + former_events(previous, current)
}

/// The position of the last device with an identity, where there is one.
fn find_last(devices: &Vec<DeviceState>, key: &DeviceKey) -> (r: Option<usize>)
    ensures
        (match r {
            Some(i) => i as int,
            None => -1,
        }) == last_index(devices.deep_view(), has_key(key@)),
        r is Some ==> r->0 < devices@.len(),
{
    let ghost all = devices.deep_view();
    let mut i: usize = devices.len();
    while i > 0
        invariant
            all == devices.deep_view(),
            i <= devices@.len(),
            forall|j: int| i <= j < all.len() ==> !has_key(key@)(#[trigger] all[j]),
        decreases i,
    {
        i -= 1;
        assert(all[i as int] == devices@[i as int]@);
        if key.is_of(&devices[i].device) {
            proof {
                lemma_last_index_is(all, has_key(key@), i as int);
            }
            return Some(i);
        }
    }
    proof {
        lemma_last_index_is(all, has_key(key@), -1);
    }
    None
}

fn device_event(
    kind: DeviceChangeKind,
    state: &DeviceState,
    previous_action: Option<Action>,
) -> (r: DeviceChangeEvent)
    ensures
        r@ == event_about(kind, state@, previous_action),
{
    DeviceChangeEvent {
        kind,
        device: DeviceSummary::of(&state.device),
        action: state.decision.action,
        previous_action,
        reason: state.decision.reason.clone(),
        rule: state.decision.rule.clone(),
    }
}

fn push_event(events: &mut Vec<DeviceChangeEvent>, event: Option<DeviceChangeEvent>)
    ensures
        final(events).deep_view() == with_event(old(events).deep_view(), event.deep_view()),
{
    let ghost before = events.deep_view();
    if let Some(event) = event {
        let ghost added = event@;
        events.push(event);
        assert(events.deep_view() =~= before.push(added));
    }
}

fn describe_present(previous: &Vec<DeviceState>, state: &DeviceState) -> (r: Option<
    DeviceChangeEvent,
>)
    ensures
        r.deep_view() == present_event(previous.deep_view(), state@),
{
    let key = DeviceKey::of(&state.device);
    proof {
        lemma_last_index(previous.deep_view(), has_key(key@));
    }
    match find_last(previous, &key) {
        None => Some(device_event(DeviceChangeKind::Connected, state, None)),
        Some(i) => {
            assert(previous.deep_view()[i as int] == previous@[i as int]@);
            let action = previous[i].decision.action;
            if action != state.decision.action {
                Some(device_event(DeviceChangeKind::DecisionChanged, state, Some(action)))
            } else {
                None
            }
        },
    }
}

fn describe_former(current: &Vec<DeviceState>, state: &DeviceState) -> (r: Option<
    DeviceChangeEvent,
>)
    ensures
        r.deep_view() == former_event(current.deep_view(), state@),
{
    let key = DeviceKey::of(&state.device);
    match find_last(current, &key) {
        None => Some(device_event(DeviceChangeKind::Removed, state, None)),
        Some(_) => None,
    }
}

/// What changed from one scan to the next: first the devices that came or are decided otherwise,
/// then those that went.
pub fn collect_device_change_events(
    previous_devices: &Vec<DeviceState>,
    devices: &Vec<DeviceState>,
) -> (r: Vec<DeviceChangeEvent>)
    ensures
        r.deep_view() == change_events(previous_devices.deep_view(), devices.deep_view()),
{
    let ghost before = previous_devices.deep_view();
    let ghost now = devices.deep_view();
    let mut events: Vec<DeviceChangeEvent> = Vec::new();
    proof {
        assert(now.take(0) =~= Seq::empty());
        assert(events.deep_view() =~= Seq::empty());
    }
    for i in 0..devices.len()
        invariant
            before == previous_devices.deep_view(),
            now == devices.deep_view(),
            events.deep_view() == present_events(before, now.take(i as int)),
    {
        proof {
            assert(now.take(i + 1).drop_last() =~= now.take(i as int));
            assert(now[i as int] == devices@[i as int]@);
        }
        push_event(&mut events, describe_present(previous_devices, &devices[i]));
    }
    let ghost present = events.deep_view();
    proof {
        assert(now.take(now.len() as int) =~= now);
        assert(before.take(0) =~= Seq::empty());
        assert(present + former_events(before.take(0), now) =~= present);
    }
    for i in 0..previous_devices.len()
        invariant
            before == previous_devices.deep_view(),
            now == devices.deep_view(),
            events.deep_view() == present + former_events(before.take(i as int), now),
    {
        let ghost former = former_events(before.take(i as int), now);
        proof {
            assert(before.take(i + 1).drop_last() =~= before.take(i as int));
            assert(before[i as int] == previous_devices@[i as int]@);
        }
        push_event(&mut events, describe_former(devices, &previous_devices[i]));
        proof {
            assert(events.deep_view() =~= present + with_event(
                former,
                former_event(now, before[i as int]),
            ));
        }
    }
    assert(before.take(before.len() as int) =~= before);
    events
}

// ---- Laws ------------------------------------------------------------------------------------

proof fn lemma_present_reported(
    previous: Seq<DeviceStateView>,
    current: Seq<DeviceStateView>,
    event: DeviceChangeEventView,
)
    ensures
        present_events(previous, current).contains(event) <==> exists|j: int|
            0 <= j < current.len() && present_event(previous, #[trigger] current[j]) == Some(event),
    decreases current.len(),
{
    if current.len() > 0 {
        let rest = current.drop_last();
        let before = present_events(previous, rest);
        let after = present_events(previous, current);
        lemma_present_reported(previous, rest, event);
        lemma_with_event(before, present_event(previous, current.last()), event);
        if exists|j: int|
            0 <= j < current.len() && present_event(previous, #[trigger] current[j]) == Some(
                event,
            ) {
            let j = choose|j: int|
                0 <= j < current.len() && present_event(previous, #[trigger] current[j]) == Some(
                    event,
                );
            if j < rest.len() {
                assert(rest[j] == current[j]);
            }
        }
        if before.contains(event) {
            let j = choose|j: int|
                0 <= j < rest.len() && present_event(previous, #[trigger] rest[j]) == Some(event);
            assert(current[j] == rest[j]);
        }
        if present_event(previous, current.last()) == Some(event) {
            assert(current[current.len() - 1] == current.last());
        }
    }
}

proof fn lemma_former_reported(
    previous: Seq<DeviceStateView>,
    current: Seq<DeviceStateView>,
    event: DeviceChangeEventView,
)
    ensures
        former_events(previous, current).contains(event) <==> exists|j: int|
            0 <= j < previous.len() && former_event(current, #[trigger] previous[j]) == Some(event),
    decreases previous.len(),
{
    if previous.len() > 0 {
        let rest = previous.drop_last();
        let before = former_events(rest, current);
        lemma_former_reported(rest, current, event);
        lemma_with_event(before, former_event(current, previous.last()), event);
        if exists|j: int|
            0 <= j < previous.len() && former_event(current, #[trigger] previous[j]) == Some(
                event,
            ) {
            let j = choose|j: int|
                0 <= j < previous.len() && former_event(current, #[trigger] previous[j]) == Some(
                    event,
                );
            if j < rest.len() {
                assert(rest[j] == previous[j]);
            }
        }
        if before.contains(event) {
            let j = choose|j: int|
                0 <= j < rest.len() && former_event(current, #[trigger] rest[j]) == Some(event);
            assert(previous[j] == rest[j]);
        }
        if former_event(current, previous.last()) == Some(event) {
            assert(previous[previous.len() - 1] == previous.last());
        }
    }
}

proof fn lemma_with_event(
    events: Seq<DeviceChangeEventView>,
    added: Option<DeviceChangeEventView>,
    event: DeviceChangeEventView,
)
    ensures
        with_event(events, added).contains(event) <==> events.contains(event) || added == Some(
            event,
        ),
{
    let after = with_event(events, added);
    if events.contains(event) {
        let i = choose|i: int| 0 <= i < events.len() && events[i] == event;
        assert(after[i] == event);
    }
    if added == Some(event) {
        assert(after[events.len() as int] == event);
    }
    if after.contains(event) {
        let i = choose|i: int| 0 <= i < after.len() && after[i] == event;
        if i < events.len() {
            assert(events[i] == event);
        }
    }
}

/// Every device that came, went or is decided otherwise is reported, and nothing else is.
pub proof fn law_changes_are_reported(
    previous: Seq<DeviceStateView>,
    current: Seq<DeviceStateView>,
    event: DeviceChangeEventView,
)
    ensures
        change_events(previous, current).contains(event) <==> {
            ||| exists|j: int|
                0 <= j < current.len() && present_event(previous, #[trigger] current[j]) == Some(
                    event,
                )
            ||| exists|j: int|
                0 <= j < previous.len() && former_event(current, #[trigger] previous[j]) == Some(
                    event,
                )
        },
{
    let present = present_events(previous, current);
    let former = former_events(previous, current);
    let all = present + former;
    lemma_present_reported(previous, current, event);
    lemma_former_reported(previous, current, event);
    if present.contains(event) {
        let i = choose|i: int| 0 <= i < present.len() && present[i] == event;
        assert(all[i] == event);
    }
    if former.contains(event) {
        let i = choose|i: int| 0 <= i < former.len() && former[i] == event;
        assert(all[present.len() + i] == event);
    }
    if all.contains(event) {
        let i = choose|i: int| 0 <= i < all.len() && all[i] == event;
        if i < present.len() {
            assert(present[i] == event);
        } else {
            assert(former[i - present.len()] == event);
        }
    }
}

/// No two of the devices have the same identity.
pub open spec fn distinct_keys(devices: Seq<DeviceStateView>) -> bool {
    forall|i: int, j: int|
        0 <= i < j < devices.len() ==> device_key((#[trigger] devices[i]).device) != device_key(
            (#[trigger] devices[j]).device,
        )
}

/// A scan that finds the same devices with the same decisions reports nothing.
pub proof fn law_no_change_is_no_report(devices: Seq<DeviceStateView>)
    requires
        distinct_keys(devices),
    ensures
        change_events(devices, devices).len() == 0,
{
    let all = change_events(devices, devices);
    if all.len() > 0 {
        let event = all[0];
        assert(all.contains(event));
        law_changes_are_reported(devices, devices, event);
        assert forall|j: int| 0 <= j < devices.len() implies last_with_key(
            devices,
            device_key((#[trigger] devices[j]).device),
        ) == Some(devices[j]) by {
            let f = has_key(device_key(devices[j].device));
            lemma_last_index_is(devices, f, j);
        }
    }
}

} // verus!
