//! What two scans report when they change places.
use super::changes::{
    change_events, distinct_keys, event_about, former_event, former_events, has_key, last_with_key,
    present_event, present_events, with_event, DeviceChangeEventView, DeviceChangeKind,
};
use super::identity::{device_key, DeviceKeyView};
use crate::device::DeviceStateView;
use crate::sequence::{last_index, lemma_last_index};
use vstd::prelude::*;

verus! {

/// The predicate that an event is of a kind.
pub open spec fn of_kind(kind: DeviceChangeKind) -> spec_fn(DeviceChangeEventView) -> bool {
    |event: DeviceChangeEventView| event.kind == kind
}

/// The same event, but of another kind.
pub open spec fn as_kind(kind: DeviceChangeKind) -> spec_fn(
    DeviceChangeEventView,
) -> DeviceChangeEventView {
    |event: DeviceChangeEventView| DeviceChangeEventView { kind, ..event }
}

/// A device that is decided otherwise than before.
pub open spec fn decided_otherwise(previous: Seq<DeviceStateView>, state: DeviceStateView) -> bool {
    match last_with_key(previous, device_key(state.device)) {
        Some(before) => before.decision.action != state.decision.action,
        None => false,
    }
}

/// The identities of the devices that are decided otherwise than before, in their order.
pub open spec fn changed_keys(
    previous: Seq<DeviceStateView>,
    current: Seq<DeviceStateView>,
) -> Seq<DeviceKeyView>
    decreases current.len(),
{
    if current.len() == 0 {
        Seq::empty()
    } else if decided_otherwise(previous, current.last()) {
        changed_keys(previous, current.drop_last()).push(device_key(current.last().device))
    } else {
        changed_keys(previous, current.drop_last())
    }
}

/// The event that the device with an identity is decided otherwise than before.
pub open spec fn change_of_key(
    previous: Seq<DeviceStateView>,
    current: Seq<DeviceStateView>,
    key: DeviceKeyView,
) -> DeviceChangeEventView {
    event_about(
        DeviceChangeKind::DecisionChanged,
        last_with_key(current, key)->0,
        Some((last_with_key(previous, key)->0).decision.action),
    )
}

proof fn lemma_filter_step(
    events: Seq<DeviceChangeEventView>,
    added: Option<DeviceChangeEventView>,
    kind: DeviceChangeKind,
)
    ensures
        with_event(events, added).filter(of_kind(kind)) == (if added is Some && added->0.kind
            == kind {
            events.filter(of_kind(kind)).push(added->0)
        } else {
            events.filter(of_kind(kind))
        }),
{
    reveal(Seq::filter);
    if added is Some {
        assert(events.push(added->0).drop_last() =~= events);
    }
}

/// Of the devices that were there it is only said that they went.
proof fn lemma_former_kinds(
    previous: Seq<DeviceStateView>,
    current: Seq<DeviceStateView>,
    kind: DeviceChangeKind,
)
    ensures
        former_events(previous, current).filter(of_kind(kind)) == (if kind
            == DeviceChangeKind::Removed {
            former_events(previous, current)
        } else {
            Seq::<DeviceChangeEventView>::empty()
        }),
    decreases previous.len(),
{
    if previous.len() == 0 {
        reveal(Seq::filter);
    } else {
        lemma_former_kinds(previous.drop_last(), current, kind);
        lemma_filter_step(
            former_events(previous.drop_last(), current),
            former_event(current, previous.last()),
            kind,
        );
    }
}

/// Of the devices that are there it is never said that they went.
proof fn lemma_present_kinds(previous: Seq<DeviceStateView>, current: Seq<DeviceStateView>)
    ensures
        present_events(previous, current).filter(of_kind(DeviceChangeKind::Removed)) == Seq::<
            DeviceChangeEventView,
        >::empty(),
    decreases current.len(),
{
    if current.len() == 0 {
        reveal(Seq::filter);
    } else {
        lemma_present_kinds(previous, current.drop_last());
        lemma_filter_step(
            present_events(previous, current.drop_last()),
            present_event(previous, current.last()),
            DeviceChangeKind::Removed,
        );
    }
}

proof fn lemma_connected(previous: Seq<DeviceStateView>, current: Seq<DeviceStateView>)
    ensures
        present_events(previous, current).filter(of_kind(DeviceChangeKind::Connected)).map_values(
            as_kind(DeviceChangeKind::Removed),
        ) == former_events(current, previous),
    decreases current.len(),
{
    let p = of_kind(DeviceChangeKind::Connected);
    let f = as_kind(DeviceChangeKind::Removed);
    if current.len() == 0 {
        reveal(Seq::filter);
        assert(present_events(previous, current).filter(p).map_values(f) =~= former_events(
            current,
            previous,
        ));
    } else {
        let rest = current.drop_last();
        let event = present_event(previous, current.last());
        let before = present_events(previous, rest).filter(p);
        lemma_connected(previous, rest);
        lemma_filter_step(present_events(previous, rest), event, DeviceChangeKind::Connected);
        if event is Some && event->0.kind == DeviceChangeKind::Connected {
            assert(before.push(event->0).map_values(f) =~= before.map_values(f).push(f(event->0)));
        }
    }
}

/// Where two scans change places, the devices that came are those that went: the same events in
/// the same order, but for their kind.
pub proof fn law_connected_reversed_is_removed(
    previous: Seq<DeviceStateView>,
    current: Seq<DeviceStateView>,
)
    ensures
        change_events(previous, current).filter(of_kind(DeviceChangeKind::Connected)).map_values(
            as_kind(DeviceChangeKind::Removed),
        ) == change_events(current, previous).filter(of_kind(DeviceChangeKind::Removed)),
{
    let connected = of_kind(DeviceChangeKind::Connected);
    let removed = of_kind(DeviceChangeKind::Removed);
    Seq::filter_distributes_over_add(
        present_events(previous, current),
        former_events(previous, current),
        connected,
    );
    Seq::filter_distributes_over_add(
        present_events(current, previous),
        former_events(current, previous),
        removed,
    );
    lemma_former_kinds(previous, current, DeviceChangeKind::Connected);
    lemma_former_kinds(current, previous, DeviceChangeKind::Removed);
    lemma_present_kinds(current, previous);
    lemma_connected(previous, current);
    assert(change_events(previous, current).filter(connected) =~= present_events(
        previous,
        current,
    ).filter(connected));
    assert(change_events(current, previous).filter(removed) =~= former_events(current, previous));
}

/// The last device of a list is not among those before it.
proof fn lemma_last_with_key_of_rest(devices: Seq<DeviceStateView>, key: DeviceKeyView)
    requires
        distinct_keys(devices),
        devices.len() > 0,
    ensures
        distinct_keys(devices.drop_last()),
        last_with_key(devices, key) == (if device_key(devices.last().device) == key {
            Some(devices.last())
        } else {
            last_with_key(devices.drop_last(), key)
        }),
        device_key(devices.last().device) == key ==> last_with_key(devices.drop_last(), key)
            is None,
{
    let rest = devices.drop_last();
    lemma_last_index(rest, has_key(key));
    if device_key(devices.last().device) == key && last_with_key(rest, key) is Some {
        let i = last_index(rest, has_key(key));
        assert(rest[i] == devices[i]);
        assert(device_key(devices[i].device) != device_key(devices[devices.len() - 1].device));
    }
}

proof fn lemma_changed_keys(previous: Seq<DeviceStateView>, current: Seq<DeviceStateView>)
    requires
        distinct_keys(current),
    ensures
        changed_keys(previous, current).no_duplicates(),
        forall|key: DeviceKeyView| #[trigger]
            changed_keys(previous, current).contains(key) <==> {
                &&& last_with_key(previous, key) is Some
                &&& last_with_key(current, key) is Some
                &&& (last_with_key(previous, key)->0).decision.action != (last_with_key(
                    current,
                    key,
                )->0).decision.action
            },
        present_events(previous, current).filter(of_kind(DeviceChangeKind::DecisionChanged))
            == changed_keys(previous, current).map_values(
            |key: DeviceKeyView| change_of_key(previous, current, key),
        ),
    decreases current.len(),
{
    let p = of_kind(DeviceChangeKind::DecisionChanged);
    let keys = changed_keys(previous, current);
    let events = present_events(previous, current).filter(p);
    let f = |key: DeviceKeyView| change_of_key(previous, current, key);
    if current.len() == 0 {
        reveal(Seq::filter);
        assert(events =~= keys.map_values(f));
    } else {
        let rest = current.drop_last();
        let last = current.last();
        let own = device_key(last.device);
        let before = changed_keys(previous, rest);
        let g = |key: DeviceKeyView| change_of_key(previous, rest, key);
        lemma_last_with_key_of_rest(current, own);
        lemma_changed_keys(previous, rest);
        lemma_filter_step(
            present_events(previous, rest),
            present_event(previous, last),
            DeviceChangeKind::DecisionChanged,
        );
        assert(!before.contains(own));
        assert forall|key: DeviceKeyView| #[trigger]
            keys.contains(key) <==> {
                &&& last_with_key(previous, key) is Some
                &&& last_with_key(current, key) is Some
                &&& (last_with_key(previous, key)->0).decision.action != (last_with_key(
                    current,
                    key,
                )->0).decision.action
            } by {
            lemma_last_with_key_of_rest(current, key);
            if decided_otherwise(previous, last) {
                if before.contains(key) {
                    let i = choose|i: int| 0 <= i < before.len() && before[i] == key;
                    assert(keys[i] == key);
                }
                if keys.contains(key) && key != own {
                    let i = choose|i: int| 0 <= i < keys.len() && keys[i] == key;
                    assert(before[i] == key);
                }
                if key == own {
                    assert(keys[before.len() as int] == key);
                }
            }
        }
        assert forall|i: int| 0 <= i < before.len() implies g(#[trigger] before[i]) == f(
            before[i],
        ) by {
            assert(before.contains(before[i]));
            lemma_last_with_key_of_rest(current, before[i]);
        }
        assert(events =~= keys.map_values(f));
    }
}

/// Two events that say of a device that its decision changed, once there and once back.
pub open spec fn exchanged(there: DeviceChangeEventView, back: DeviceChangeEventView) -> bool {
    there.previous_action == Some(back.action) && back.previous_action == Some(there.action)
}

/// Where two scans change places, the same devices are decided otherwise, each of them once, and
/// the action and the previous action of each change places too.
pub proof fn law_decision_changes_reversed(
    previous: Seq<DeviceStateView>,
    current: Seq<DeviceStateView>,
)
    requires
        distinct_keys(previous),
        distinct_keys(current),
    ensures
        ({
            let p = of_kind(DeviceChangeKind::DecisionChanged);
            let there = change_events(previous, current).filter(p);
            let back = change_events(current, previous).filter(p);
            let there_keys = changed_keys(previous, current);
            let back_keys = changed_keys(current, previous);
            &&& there.len() == there_keys.len()
            &&& back.len() == back_keys.len()
            &&& there.len() == back.len()
            &&& there_keys.no_duplicates()
            &&& back_keys.no_duplicates()
            &&& there_keys.to_set() == back_keys.to_set()
            &&& forall|i: int|
                0 <= i < there.len() ==> #[trigger] there[i] == change_of_key(
                    previous,
                    current,
                    there_keys[i],
                )
            &&& forall|j: int|
                0 <= j < back.len() ==> #[trigger] back[j] == change_of_key(
                    current,
                    previous,
                    back_keys[j],
                )
            &&& forall|i: int, j: int|
                0 <= i < there.len() && 0 <= j < back.len() && there_keys[i] == back_keys[j]
                    ==> exchanged(#[trigger] there[i], #[trigger] back[j])
        }),
{
    let p = of_kind(DeviceChangeKind::DecisionChanged);
    let there = change_events(previous, current).filter(p);
    let back = change_events(current, previous).filter(p);
    let there_keys = changed_keys(previous, current);
    let back_keys = changed_keys(current, previous);
    Seq::filter_distributes_over_add(
        present_events(previous, current),
        former_events(previous, current),
        p,
    );
    Seq::filter_distributes_over_add(
        present_events(current, previous),
        former_events(current, previous),
        p,
    );
    lemma_former_kinds(previous, current, DeviceChangeKind::DecisionChanged);
    lemma_former_kinds(current, previous, DeviceChangeKind::DecisionChanged);
    lemma_changed_keys(previous, current);
    lemma_changed_keys(current, previous);
    assert(there =~= present_events(previous, current).filter(p));
    assert(back =~= present_events(current, previous).filter(p));
    assert forall|key: DeviceKeyView|
        there_keys.to_set().contains(key) == back_keys.to_set().contains(key) by {
        assert(there_keys.to_set().contains(key) == there_keys.contains(key));
        assert(back_keys.to_set().contains(key) == back_keys.contains(key));
    }
    assert(there_keys.to_set() =~= back_keys.to_set());
    there_keys.unique_seq_to_set();
    back_keys.unique_seq_to_set();
}

} // verus!
