//! The events that the kernel announces devices with.
use crate::error::{classify_os_error, os_error, Error, ErrorView, IoError, OsError};
use crate::sysfs::attributes::{properties, utf8_text, Contents};
use crate::text::{chars_of, find_char, position, same_text, split, split_once_at};
use vstd::prelude::*;
use vstd::utf8::{decode_utf8, valid_utf8};

verus! {

/// What an event says of the device it is about.
#[derive(Debug, PartialEq, Eq)]
pub struct Uevent {
    pub header: String,
    pub action: Option<String>,
    pub subsystem: Option<String>,
    pub devtype: Option<String>,
}

#[verifier::ext_equal]
pub struct UeventView {
    pub header: Seq<char>,
    pub action: Option<Seq<char>>,
    pub subsystem: Option<Seq<char>>,
    pub devtype: Option<Seq<char>>,
}

impl View for Uevent {
    type V = UeventView;

    open spec fn view(&self) -> UeventView {
        UeventView {
            header: self.header@,
            action: self.action.deep_view(),
            subsystem: self.subsystem.deep_view(),
            devtype: self.devtype.deep_view(),
        }
    }
}

impl Clone for Uevent {
    fn clone(&self) -> (r: Self)
        ensures
            r@ == self@,
    {
        Uevent {
            header: self.header.clone(),
            action: self.action.clone(),
            subsystem: self.subsystem.clone(),
            devtype: self.devtype.clone(),
        }
    }
}

/// A piece of a payload counts: it is not empty, and it is text.
pub open spec fn is_part(piece: Seq<u8>) -> bool {
    piece.len() > 0 && valid_utf8(piece)
}

/// The pieces that count, as texts.
pub open spec fn text_parts(pieces: Seq<Seq<u8>>) -> Seq<Seq<char>>
    decreases pieces.len(),
{
    if pieces.len() == 0 {
        Seq::empty()
    } else {
        let before = text_parts(pieces.drop_last());
        if is_part(pieces.last()) {
            before.push(decode_utf8(pieces.last()))
        } else {
            before
        }
    }
}

/// The texts that a payload consists of: what stands between its NUL bytes.
pub open spec fn payload_parts(payload: Seq<u8>) -> Seq<Seq<char>> {
    text_parts(split(payload, 0u8))
}

/// What a map holds under a key.
pub open spec fn lookup(m: Map<Seq<char>, Seq<char>>, key: Seq<char>) -> Option<Seq<char>> {
    if m.contains_key(key) {
        Some(m[key])
    } else {
        None
    }
}

/// The event that some texts describe. The first is a header where it is no `key=value`; of two
/// properties with one key the later counts.
pub open spec fn described_event(parts: Seq<Seq<char>>) -> UeventView {
    let found = properties(parts);
    UeventView {
        header: if parts.len() > 0 && position(parts[0], '=') == parts[0].len() {
            parts[0]
        } else {
            Seq::empty()
        },
        action: lookup(found, "ACTION"@),
        subsystem: lookup(found, "SUBSYSTEM"@),
        devtype: lookup(found, "DEVTYPE"@),
    }
}

/// The event that a payload holds.
pub open spec fn parsed_event(payload: Seq<u8>) -> UeventView {
    described_event(payload_parts(payload))
}

/// An action after which the devices have to be looked at again.
pub open spec fn relevant_action(action: Seq<char>) -> bool {
    action == "add"@ || action == "bind"@ || action == "change"@ || action == "remove"@ || action
        == "unbind"@
}

/// An event is about a USB device that came, went or changed.
pub open spec fn usb_device_change(event: UeventView) -> bool {
    &&& event.subsystem == Some("usb"@)
    &&& event.devtype == Some("usb_device"@)
    &&& event.action is Some && relevant_action(event.action->0)
}

fn push_part(parts: &mut Vec<String>, piece: &Vec<u8>)
    ensures
        final(parts).deep_view() == (if is_part(piece@) {
            old(parts).deep_view().push(decode_utf8(piece@))
        } else {
            old(parts).deep_view()
        }),
{
    let ghost before = parts.deep_view();
    if piece.len() > 0 {
        if let Some(text) = utf8_text(piece.as_slice()) {
            parts.push(text.to_owned());
            assert(parts.deep_view() =~= before.push(decode_utf8(piece@)));
        }
    }
}

/// The texts between the NUL bytes of a payload.
fn parts_of(payload: &[u8]) -> (r: Vec<String>)
    ensures
        r.deep_view() == payload_parts(payload@),
{
    let mut parts: Vec<String> = Vec::new();
    let mut piece: Vec<u8> = Vec::new();
    let ghost mut done: Seq<Seq<u8>> = Seq::empty();
    proof {
        assert(payload@.take(0) =~= Seq::empty());
        assert(done.push(piece@) =~= split(payload@.take(0), 0u8));
        assert(parts.deep_view() =~= text_parts(done));
    }
    for i in 0..payload.len()
        invariant
            done.push(piece@) == split(payload@.take(i as int), 0u8),
            parts.deep_view() == text_parts(done),
    {
        let ghost before = done.push(piece@);
        proof {
            assert(payload@.take(i + 1).drop_last() =~= payload@.take(i as int));
            assert(before.drop_last() =~= done);
        }
        if payload[i] == 0 {
            push_part(&mut parts, &piece);
            piece = Vec::new();
            proof {
                done = before;
            }
        } else {
            piece.push(payload[i]);
        }
    }
    proof {
        assert(payload@.take(payload@.len() as int) =~= payload@);
        assert(done.push(piece@).drop_last() =~= done);
    }
    push_part(&mut parts, &piece);
    parts
}

proof fn lemma_keys_differ()
    ensures
        "ACTION"@ != "SUBSYSTEM"@,
        "ACTION"@ != "DEVTYPE"@,
        "SUBSYSTEM"@ != "DEVTYPE"@,
{
    reveal_strlit("ACTION");
    reveal_strlit("SUBSYSTEM");
    reveal_strlit("DEVTYPE");
    assert("ACTION"@[0] != "SUBSYSTEM"@[0]);
    assert("ACTION"@[0] != "DEVTYPE"@[0]);
    assert("SUBSYSTEM"@[0] != "DEVTYPE"@[0]);
}

impl Uevent {
    /// Reads the payload of an event.
    pub fn parse(payload: &[u8]) -> (r: Self)
        ensures
            r@ == parsed_event(payload@),
    {
        let parts = parts_of(payload);
        let ghost all = parts.deep_view();
        let mut event = Uevent {
            header: String::new(),
            action: None,
            subsystem: None,
            devtype: None,
        };
        proof {
            lemma_keys_differ();
            assert(all.take(0) =~= Seq::empty());
        }
        if parts.len() > 0 {
            let chars = chars_of(parts[0].as_str());
            assert(all[0] == parts@[0]@);
            if find_char(&chars, '=') == chars.len() {
                event.header = parts[0].clone();
            }
        }
        let ghost header = event.header@;
        for i in 0..parts.len()
            invariant
                all == parts.deep_view(),
                event.header@ == header,
                event.action.deep_view() == lookup(properties(all.take(i as int)), "ACTION"@),
                event.subsystem.deep_view() == lookup(
                    properties(all.take(i as int)),
                    "SUBSYSTEM"@,
                ),
                event.devtype.deep_view() == lookup(properties(all.take(i as int)), "DEVTYPE"@),
        {
            proof {
                lemma_keys_differ();
                assert(all.take(i + 1).drop_last() =~= all.take(i as int));
                assert(all[i as int] == parts@[i as int]@);
            }
            if let Some((key, value)) = split_once_at(parts[i].as_str(), '=') {
                if same_text(key.as_str(), "ACTION") {
                    event.action = Some(value);
                } else if same_text(key.as_str(), "SUBSYSTEM") {
                    event.subsystem = Some(value);
                } else if same_text(key.as_str(), "DEVTYPE") {
                    event.devtype = Some(value);
                }
            }
        }
        assert(all.take(all.len() as int) =~= all);
        event
    }

    /// The event is about a USB device that came, went or changed.
    pub fn is_usb_device_change(&self) -> (r: bool)
        ensures
            r == usb_device_change(self@),
    {
        let subsystem_is_usb = match &self.subsystem {
            Some(subsystem) => same_text(subsystem.as_str(), "usb"),
            None => false,
        };
        let devtype_is_device = match &self.devtype {
            Some(devtype) => same_text(devtype.as_str(), "usb_device"),
            None => false,
        };
        let action_is_relevant = match &self.action {
            Some(action) => {
                let action = action.as_str();
                same_text(action, "add") || same_text(action, "bind") || same_text(
                    action,
                    "change",
                ) || same_text(action, "remove") || same_text(action, "unbind")
            },
            None => false,
        };
        subsystem_is_usb && devtype_is_device && action_is_relevant
    }
}

// ---- Draining the socket ---------------------------------------------------------------------

/// Nothing is waiting on the socket, which is no failure.
pub open spec fn idle(error: IoError) -> bool {
    error.os_code is Some && (os_error(error.os_code->0) == OsError::TryAgain || os_error(
        error.os_code->0,
    ) == OsError::Interrupted)
}

/// What one attempt to receive an event gives.
pub open spec fn received_event(received: Contents) -> Result<Option<UeventView>, ErrorView> {
    match received {
        Err(error) => if idle(error) {
            Ok(None)
        } else {
            Err(
                ErrorView::Io {
                    context: "failed to receive kobject uevent"@,
                    source: error@,
                },
            )
        },
        Ok(payload) => if payload@.len() == 0 {
            Ok(None)
        } else {
            Ok(Some(parsed_event(payload@)))
        },
    }
}

/// The event that came of one attempt to receive one. There is none when nothing is waiting.
pub fn recv_one(received: Contents) -> (r: Result<Option<Uevent>, Error>)
    ensures
        (match r {
            Ok(Some(event)) => Ok(Some(event@)),
            Ok(None) => Ok(None),
            Err(error) => Err(error@),
        }) == received_event(received),
{
    match received {
        Err(error) => {
            if let Some(code) = error.os_code {
                let named = classify_os_error(code);
                if named == OsError::TryAgain || named == OsError::Interrupted {
                    return Ok(None);
                }
            }
            Err(Error::io("failed to receive kobject uevent".to_owned(), error))
        },
        Ok(payload) => {
            if payload.len() == 0 {
                Ok(None)
            } else {
                Ok(Some(Uevent::parse(payload.as_slice())))
            }
        },
    }
}

/// Events are being taken off the socket.
#[derive(Debug)]
pub struct Drain {
    changed: bool,
}

/// How draining goes on.
#[derive(Debug)]
pub enum DrainStep {
    /// The next event has to be received.
    Receive(Drain),
    /// Nothing is left. Says whether a USB device came, went or changed.
    Done(Result<bool, Error>),
}

#[verifier::ext_equal]
pub enum DrainStepView {
    Receive(bool),
    Done(Result<bool, ErrorView>),
}

impl View for DrainStep {
    type V = DrainStepView;

    open spec fn view(&self) -> DrainStepView {
        match self {
            DrainStep::Receive(drain) => DrainStepView::Receive(drain.seen_change()),
            DrainStep::Done(Ok(changed)) => DrainStepView::Done(Ok(*changed)),
            DrainStep::Done(Err(error)) => DrainStepView::Done(Err(error@)),
        }
    }
}

/// How draining goes on after one attempt to receive an event.
pub open spec fn drain_resume(changed: bool, received: Contents) -> DrainStepView {
    match received_event(received) {
        Err(error) => DrainStepView::Done(Err(error)),
        Ok(None) => DrainStepView::Done(Ok(changed)),
        Ok(Some(event)) => DrainStepView::Receive(changed || usb_device_change(event)),
    }
}

impl Drain {
    /// A USB device came, went or changed, by an event that was received already.
    pub closed spec fn seen_change(&self) -> bool {
        self.changed
    }

    pub fn start() -> (r: Self)
        ensures
            !r.seen_change(),
    {
        Drain { changed: false }
    }

    /// Goes on with what came of receiving an event.
    pub fn resume(self, received: Contents) -> (r: DrainStep)
        ensures
            r@ == drain_resume(self.seen_change(), received),
    {
        match recv_one(received) {
            Err(error) => DrainStep::Done(Err(error)),
            Ok(None) => DrainStep::Done(Ok(self.changed)),
            Ok(Some(event)) => DrainStep::Receive(
                Drain { changed: self.changed || event.is_usb_device_change() },
            ),
        }
    }
}

/// How draining ends that goes through these attempts to receive, and none where it does not end.
pub open spec fn drained(changed: bool, received: Seq<Contents>) -> Option<
    Result<bool, ErrorView>,
>
    decreases received.len(),
{
    if received.len() == 0 {
        None
    } else {
        match drain_resume(changed, received[0]) {
            DrainStepView::Done(r) => Some(r),
            DrainStepView::Receive(now) => drained(now, received.skip(1)),
        }
    }
}

/// An attempt that gave an event about a USB device.
pub open spec fn gave_change(received: Contents) -> bool {
    received_event(received) matches Ok(Some(event)) && usb_device_change(event)
}

/// Draining reports a change exactly where one of the events was about a USB device that came,
/// went or changed, and it ends without an error when nothing is left.
pub proof fn law_drain_reports_changes(changed: bool, events: Seq<Contents>, end: Contents)
    requires
        forall|i: int|
            0 <= i < events.len() ==> (received_event(#[trigger] events[i]) matches Ok(Some(_))),
        received_event(end) == Ok::<Option<UeventView>, ErrorView>(None),
    ensures
        drained(changed, events.push(end)) == Some(
            Ok::<bool, ErrorView>(
                changed || exists|i: int|
                    0 <= i < events.len() && gave_change(#[trigger] events[i]),
            ),
        ),
    decreases events.len(),
{
    let all = events.push(end);
    if events.len() == 0 {
        assert(all[0] == end);
    } else {
        let rest = events.skip(1);
        assert(all.skip(1) =~= rest.push(end));
        assert(all[0] == events[0]);
        let now = changed || gave_change(events[0]);
        assert forall|i: int| 0 <= i < rest.len() implies (received_event(
            #[trigger] rest[i],
        ) matches Ok(Some(_))) by {
            assert(rest[i] == events[i + 1]);
        }
        law_drain_reports_changes(now, rest, end);
        if exists|i: int| 0 <= i < rest.len() && gave_change(#[trigger] rest[i]) {
            let i = choose|i: int| 0 <= i < rest.len() && gave_change(#[trigger] rest[i]);
            assert(gave_change(events[i + 1]));
        }
        if exists|i: int| 0 <= i < events.len() && gave_change(#[trigger] events[i]) {
            let i = choose|i: int| 0 <= i < events.len() && gave_change(#[trigger] events[i]);
            if i > 0 {
                assert(gave_change(rest[i - 1]));
            }
        }
    }
}

/// An event of another subsystem, of another device type, or without an action that matters, is
/// never taken for a change of a USB device.
pub proof fn law_other_events_are_ignored(payload: Seq<u8>)
    requires
        ({
            let found = properties(payload_parts(payload));
            ||| lookup(found, "SUBSYSTEM"@) != Some("usb"@)
            ||| lookup(found, "DEVTYPE"@) != Some("usb_device"@)
            ||| lookup(found, "ACTION"@) is None
            ||| !relevant_action(lookup(found, "ACTION"@)->0)
        }),
    ensures
        !usb_device_change(parsed_event(payload)),
{
}

} // verus!
