//! What the kernel's events say, told by their bytes and texts.
use crate::error::ErrorView;
use crate::sysfs::attributes::Contents;
use crate::sysfs::probe_laws::{law_properties, sets};
use crate::text::split;
use crate::text_laws::{law_cut_at_the_first_separator, law_pieces_behind_a_separator};
use crate::uevent::{
    described_event, drain_resume, is_part, parsed_event, payload_parts, received_event, text_parts,
    usb_device_change, DrainStepView, UeventView,
};
use vstd::prelude::*;
use vstd::utf8::{decode_utf8, valid_utf8};

verus! {

/// The last of some texts that sets a key sets it to a value.
pub open spec fn last_sets(parts: Seq<Seq<char>>, key: Seq<char>, value: Seq<char>) -> bool {
    exists|i: int|
        0 <= i < parts.len() && sets(#[trigger] parts[i], key, value) && forall|j: int, other: Seq<char>|
            #![trigger sets(parts[j], key, other)]
            i < j < parts.len() ==> !sets(parts[j], key, other)
}

/// None of some texts sets a key.
pub open spec fn none_sets(parts: Seq<Seq<char>>, key: Seq<char>) -> bool {
    forall|i: int, other: Seq<char>|
        #![trigger sets(parts[i], key, other)]
        0 <= i < parts.len() ==> !sets(parts[i], key, other)
}

/// An event says of its action, its subsystem and its device type what the last text of the form
/// `ACTION=`, `SUBSYSTEM=` or `DEVTYPE=` says. Its header is its first text, where that holds no
/// `=`.
pub proof fn law_events_say_what_their_texts_say(parts: Seq<Seq<char>>, value: Seq<char>)
    ensures
        described_event(parts).action == Some(value) <==> last_sets(parts, "ACTION"@, value),
        described_event(parts).action is None <==> none_sets(parts, "ACTION"@),
        described_event(parts).subsystem == Some(value) <==> last_sets(parts, "SUBSYSTEM"@, value),
        described_event(parts).subsystem is None <==> none_sets(parts, "SUBSYSTEM"@),
        described_event(parts).devtype == Some(value) <==> last_sets(parts, "DEVTYPE"@, value),
        described_event(parts).devtype is None <==> none_sets(parts, "DEVTYPE"@),
        parts.len() > 0 && !parts[0].contains('=') ==> described_event(parts).header == parts[0],
        parts.len() == 0 || parts[0].contains('=') ==> described_event(parts).header.len() == 0,
{
    reveal_strlit("ACTION");
    reveal_strlit("SUBSYSTEM");
    reveal_strlit("DEVTYPE");
    assert(!"ACTION"@.contains('='));
    assert(!"SUBSYSTEM"@.contains('='));
    assert(!"DEVTYPE"@.contains('='));
    law_properties(parts, "ACTION"@, value);
    law_properties(parts, "SUBSYSTEM"@, value);
    law_properties(parts, "DEVTYPE"@, value);
    if parts.len() > 0 {
        law_cut_at_the_first_separator(parts[0], '=');
    }
}

proof fn lemma_more_parts(pieces: Seq<Seq<u8>>, rest: Seq<Seq<u8>>)
    ensures
        text_parts(pieces + rest) == text_parts(pieces) + text_parts(rest),
    decreases rest.len(),
{
    if rest.len() == 0 {
        assert(pieces + rest =~= pieces);
        assert(text_parts(pieces + rest) =~= text_parts(pieces) + text_parts(rest));
    } else {
        lemma_more_parts(pieces, rest.drop_last());
        assert((pieces + rest).drop_last() =~= pieces + rest.drop_last());
        assert((pieces + rest).last() == rest.last());
        assert(text_parts(pieces + rest) =~= text_parts(pieces) + text_parts(rest));
    }
}

/// The texts of a payload stand between NUL bytes. What is empty, or no text, does not count.
pub proof fn law_payloads_are_cut_at_nul(piece: Seq<u8>, rest: Seq<u8>)
    requires
        !piece.contains(0u8),
    ensures
        piece.len() > 0 && valid_utf8(piece) ==> payload_parts(piece.push(0u8) + rest) == seq![
            decode_utf8(piece),
        ] + payload_parts(rest),
        piece.len() == 0 || !valid_utf8(piece) ==> payload_parts(piece.push(0u8) + rest)
            == payload_parts(rest),
        piece.len() > 0 && valid_utf8(piece) ==> payload_parts(piece) == seq![decode_utf8(piece)],
        payload_parts(Seq::empty()) == Seq::<Seq<char>>::empty(),
{
    law_pieces_behind_a_separator(piece, 0u8, rest);
    law_pieces_behind_a_separator(Seq::<u8>::empty(), 0u8, Seq::empty());
    lemma_more_parts(seq![piece], split(rest, 0u8));
    reveal_with_fuel(text_parts, 2);
    let none = Seq::<u8>::empty();
    assert(seq![piece].drop_last() =~= Seq::<Seq<u8>>::empty());
    assert(seq![none].drop_last() =~= Seq::<Seq<u8>>::empty());
    assert(text_parts(seq![piece]) =~= (if is_part(piece) {
        seq![decode_utf8(piece)]
    } else {
        Seq::empty()
    }));
    assert(payload_parts(none) =~= Seq::<Seq<char>>::empty());
    assert(Seq::<Seq<char>>::empty() + payload_parts(rest) =~= payload_parts(rest));
}

/// An event makes the daemon look at the devices again exactly where it is of the subsystem `usb`,
/// about a `usb_device`, and one of `add`, `bind`, `change`, `remove` and `unbind`.
pub proof fn law_events_that_count(payload: Seq<u8>)
    ensures
        usb_device_change(parsed_event(payload)) <==> {
            let parts = payload_parts(payload);
            &&& last_sets(parts, "SUBSYSTEM"@, "usb"@)
            &&& last_sets(parts, "DEVTYPE"@, "usb_device"@)
            &&& last_sets(parts, "ACTION"@, "add"@) || last_sets(parts, "ACTION"@, "bind"@)
                || last_sets(parts, "ACTION"@, "change"@) || last_sets(
                parts,
                "ACTION"@,
                "remove"@,
            ) || last_sets(parts, "ACTION"@, "unbind"@)
        },
{
    let parts = payload_parts(payload);
    law_events_say_what_their_texts_say(parts, "usb"@);
    law_events_say_what_their_texts_say(parts, "usb_device"@);
    law_events_say_what_their_texts_say(parts, "add"@);
    law_events_say_what_their_texts_say(parts, "bind"@);
    law_events_say_what_their_texts_say(parts, "change"@);
    law_events_say_what_their_texts_say(parts, "remove"@);
    law_events_say_what_their_texts_say(parts, "unbind"@);
}

/// Nothing is waiting where the operating system says to try again or that it was interrupted, or
/// where an empty payload came. Every other payload is an event, and every other failure an error.
pub proof fn law_received_events(received: Contents)
    ensures
        received matches Ok(payload) ==> {
            &&& payload@.len() == 0 ==> received_event(received) == Ok::<
                Option<UeventView>,
                ErrorView,
            >(None)
            &&& payload@.len() > 0 ==> received_event(received) == Ok::<
                Option<UeventView>,
                ErrorView,
            >(Some(parsed_event(payload@)))
        },
        received matches Err(error) ==> {
            &&& error.os_code == Some(11i32) || error.os_code == Some(4i32) ==> received_event(
                received,
            ) == Ok::<Option<UeventView>, ErrorView>(None)
            &&& !(error.os_code == Some(11i32) || error.os_code == Some(4i32)) ==> received_event(
                received,
            ) == Err::<Option<UeventView>, ErrorView>(
                ErrorView::Io {
                    context: "failed to receive kobject uevent"@,
                    source: error@,
                },
            )
        },
{
}

/// One attempt to receive an event ends the taking of events where nothing is waiting, with
/// whether there was a change, or where it failed. Otherwise more are received, and a change that
/// was seen stays seen.
pub proof fn law_events_are_taken_until_none_is_left(changed: bool, received: Contents)
    ensures
        received_event(received) matches Err(error) ==> drain_resume(changed, received)
            == DrainStepView::Done(Err(error)),
        received_event(received) == Ok::<Option<UeventView>, ErrorView>(None) ==> drain_resume(
            changed,
            received,
        ) == DrainStepView::Done(Ok(changed)),
        received_event(received) matches Ok(Some(event)) ==> drain_resume(changed, received)
            == DrainStepView::Receive(changed || usb_device_change(event)),
{
}

} // verus!
