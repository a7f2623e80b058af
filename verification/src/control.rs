//! What is asked of the daemon over its control socket, what it answers, and how both are framed.
use crate::config::Mode;
use crate::device::{DeviceState, DeviceStateView};
use crate::policy::{Action, Decision, DecisionView};
use crate::sequence::{first_index, lemma_first_index, lemma_first_index_is};
use vstd::prelude::*;

verus! {

#[derive(Clone, Copy, Debug, PartialEq, Eq, Structural)]
pub enum Request {
    Status,
    ListDevices,
    Reload,
    DryRunReload,
    Apply { id: u32, action: Action },
    ClearOverride { id: u32 },
}

#[derive(Debug, PartialEq, Eq)]
pub enum Response {
    Done { message: String },
    Status {
        mode: Mode,
        device_count: usize,
        override_count: usize,
        socket_path: String,
        policy_path: String,
    },
    Devices { devices: Vec<DeviceState> },
    Decisions { decisions: Vec<Decision> },
    Error { message: String },
}

#[verifier::ext_equal]
pub enum ResponseView {
    Done { message: Seq<char> },
    Status {
        mode: Mode,
        device_count: nat,
        override_count: nat,
        socket_path: Seq<char>,
        policy_path: Seq<char>,
    },
    Devices { devices: Seq<DeviceStateView> },
    Decisions { decisions: Seq<DecisionView> },
    Error { message: Seq<char> },
}

impl View for Response {
    type V = ResponseView;

    open spec fn view(&self) -> ResponseView {
        match self {
            Response::Done { message } => ResponseView::Done { message: message@ },
            Response::Status {
                mode,
                device_count,
                override_count,
                socket_path,
                policy_path,
            } => ResponseView::Status {
                mode: *mode,
                device_count: *device_count as nat,
                override_count: *override_count as nat,
                socket_path: socket_path@,
                policy_path: policy_path@,
            },
            Response::Devices { devices } => ResponseView::Devices { devices: devices.deep_view() },
            Response::Decisions { decisions } => ResponseView::Decisions {
                decisions: decisions.deep_view(),
            },
            Response::Error { message } => ResponseView::Error { message: message@ },
        }
    }
}

// ---- Frames ----------------------------------------------------------------------------------

/// The longest request that is read, with the line feed that ends it.
pub const MAX_CONTROL_FRAME: usize = 65536;

/// The line feed, which ends a frame.
pub const FRAME_END: u8 = 10;

/// A message as it is sent: with the line feed that ends it.
pub fn frame(payload: Vec<u8>) -> (r: Vec<u8>)
    ensures
        r@ == payload@.push(FRAME_END),
{
    let mut framed = payload;
    framed.push(FRAME_END);
    framed
}

/// Why a request is refused before it is looked at.
#[derive(Clone, Copy, Debug, PartialEq, Eq, Structural)]
pub enum Refusal {
    Empty,
    Unterminated,
    TooLong,
}

/// What is answered to a request that is refused.
pub open spec fn refusal_text(refusal: Refusal) -> Seq<char> {
    match refusal {
        Refusal::Empty => "empty control request"@,
        Refusal::Unterminated => "unterminated control request"@,
        Refusal::TooLong => "control request exceeds 65536 bytes"@,
    }
}

impl Refusal {
    pub fn message(self) -> (r: &'static str)
        ensures
            r@ == refusal_text(self),
    {
        match self {
            Refusal::Empty => "empty control request",
            Refusal::Unterminated => "unterminated control request",
            Refusal::TooLong => "control request exceeds 65536 bytes",
        }
    }
}

/// The predicate that a byte ends a frame.
pub open spec fn ends_frame() -> spec_fn(u8) -> bool {
    |b: u8| b == FRAME_END
}

/// What the bytes that have come so far amount to.
#[verifier::ext_equal]
pub enum FrameView {
    /// More has to come.
    Partial(Seq<u8>),
    /// A whole frame, with its line feed.
    Complete(Seq<u8>),
    Refused(Refusal),
}

/// What some bytes amount to: a frame up to their first line feed, where that is not too far.
pub open spec fn framed(bytes: Seq<u8>) -> FrameView {
    let end = first_index(bytes, ends_frame());
    let needed = if end < bytes.len() {
        end + 1
    } else {
        bytes.len() as int
    };
    if needed > MAX_CONTROL_FRAME {
        FrameView::Refused(Refusal::TooLong)
    } else if end < bytes.len() {
        FrameView::Complete(bytes.take(end + 1))
    } else {
        FrameView::Partial(bytes)
    }
}

/// What it amounts to that nothing more comes.
pub open spec fn frame_cut_off(bytes: Seq<u8>) -> FrameView {
    if bytes.len() == 0 {
        FrameView::Refused(Refusal::Empty)
    } else {
        FrameView::Refused(Refusal::Unterminated)
    }
}

/// What it amounts to that more bytes come behind those that came. None have come where the other
/// side is done.
pub open spec fn fed(bytes: Seq<u8>, available: Seq<u8>) -> FrameView {
    if available.len() == 0 {
        frame_cut_off(bytes)
    } else {
        framed(bytes + available)
    }
}

/// A request that is being read.
#[derive(Debug)]
pub struct FrameReader {
    payload: Vec<u8>,
}

/// How reading goes on.
#[derive(Debug)]
pub enum FrameStep {
    /// More has to be read.
    Read(FrameReader),
    /// A whole frame was read.
    Complete(Vec<u8>),
    Refused(Refusal),
}

impl View for FrameReader {
    type V = Seq<u8>;

    closed spec fn view(&self) -> Seq<u8> {
        self.payload@
    }
}

impl View for FrameStep {
    type V = FrameView;

    open spec fn view(&self) -> FrameView {
        match self {
            FrameStep::Read(reader) => FrameView::Partial(reader@),
            FrameStep::Complete(payload) => FrameView::Complete(payload@),
            FrameStep::Refused(refusal) => FrameView::Refused(*refusal),
        }
    }
}

impl FrameReader {
    #[verifier::type_invariant]
    spec fn valid(self) -> bool {
        &&& self.payload@.len() <= MAX_CONTROL_FRAME
        &&& forall|i: int| 0 <= i < self.payload@.len() ==> #[trigger] self.payload@[i] != FRAME_END
    }

    pub fn new() -> (r: Self)
        ensures
            r@ == Seq::<u8>::empty(),
    {
        FrameReader { payload: Vec::new() }
    }

    /// Goes on with the bytes that have come. None have where the other side is done.
    pub fn feed(self, available: &[u8]) -> (r: FrameStep)
        ensures
            r@ == fed(self@, available@),
    {
        proof {
            use_type_invariant(&self);
        }
        let mut payload = self.payload;
        let ghost before = payload@;
        let ghost all = before + available@;
        if available.len() == 0 {
            if payload.len() == 0 {
                return FrameStep::Refused(Refusal::Empty);
            }
            return FrameStep::Refused(Refusal::Unterminated);
        }
        let mut newline: usize = 0;
        while newline < available.len() && available[newline] != FRAME_END
            invariant
                newline <= available@.len(),
                forall|j: int| 0 <= j < newline ==> #[trigger] available@[j] != FRAME_END,
            decreases available.len() - newline,
        {
            newline += 1;
        }
        let found = newline < available.len();
        let count = if found {
            newline + 1
        } else {
            available.len()
        };
        proof {
            let f = ends_frame();
            let end = if found {
                before.len() + newline
            } else {
                all.len() as int
            };
            assert forall|j: int| 0 <= j < end implies !f(#[trigger] all[j]) by {
                if j < before.len() {
                    assert(all[j] == before[j]);
                } else {
                    assert(all[j] == available@[j - before.len()]);
                }
            }
            lemma_first_index_is(all, f, end);
        }
        if count > MAX_CONTROL_FRAME - payload.len() {
            return FrameStep::Refused(Refusal::TooLong);
        }
        for i in 0..count
            invariant
                count <= available@.len(),
                payload@ == before + available@.take(i as int),
        {
            payload.push(available[i]);
            assert(payload@ =~= before + available@.take(i + 1));
        }
        if found {
            assert(payload@ =~= all.take(before.len() + newline + 1));
            FrameStep::Complete(payload)
        } else {
            assert(payload@ =~= all);
            FrameStep::Read(FrameReader { payload })
        }
    }
}

/// What was sent as a frame is read back as that frame, whatever comes behind it, where it holds
/// no line feed of its own and is not too long.
pub proof fn law_frames_are_read_back(payload: Seq<u8>, behind: Seq<u8>)
    requires
        payload.len() < MAX_CONTROL_FRAME,
        forall|i: int| 0 <= i < payload.len() ==> #[trigger] payload[i] != FRAME_END,
    ensures
        framed(payload.push(FRAME_END) + behind) == FrameView::Complete(payload.push(FRAME_END)),
{
    let all = payload.push(FRAME_END) + behind;
    assert forall|j: int| 0 <= j < payload.len() implies !ends_frame()(#[trigger] all[j]) by {
        assert(all[j] == payload[j]);
    }
    lemma_first_index_is(all, ends_frame(), payload.len() as int);
    assert(all.take((payload.len() + 1) as int) =~= payload.push(FRAME_END));
}

/// All the bytes of some chunks.
pub open spec fn joined_chunks(chunks: Seq<Seq<u8>>) -> Seq<u8>
    decreases chunks.len(),
{
    if chunks.len() == 0 {
        Seq::empty()
    } else {
        joined_chunks(chunks.drop_last()) + chunks.last()
    }
}

/// What reading comes to that gets its bytes in chunks. What was complete or refused stays so.
pub open spec fn read_chunks(chunks: Seq<Seq<u8>>) -> FrameView
    decreases chunks.len(),
{
    if chunks.len() == 0 {
        FrameView::Partial(Seq::empty())
    } else {
        match read_chunks(chunks.drop_last()) {
            FrameView::Partial(bytes) => framed(bytes + chunks.last()),
            settled => settled,
        }
    }
}

/// How a request is cut into chunks on its way makes no difference to what is read.
pub proof fn law_chunks_make_no_difference(chunks: Seq<Seq<u8>>)
    ensures
        read_chunks(chunks) == framed(joined_chunks(chunks)),
    decreases chunks.len(),
{
    let f = ends_frame();
    if chunks.len() == 0 {
        assert(Seq::<u8>::empty().len() == 0);
    } else {
        law_chunks_make_no_difference(chunks.drop_last());
        let bytes = joined_chunks(chunks.drop_last());
        let all = bytes + chunks.last();
        lemma_first_index(bytes, f);
        lemma_first_index(all, f);
        let end = first_index(bytes, f);
        if end < bytes.len() {
            assert forall|j: int| 0 <= j < end implies !f(#[trigger] all[j]) by {
                assert(all[j] == bytes[j]);
            }
            assert(all[end] == bytes[end]);
            lemma_first_index_is(all, f, end);
            assert(all.take(end + 1) =~= bytes.take(end + 1));
        } else if bytes.len() > MAX_CONTROL_FRAME {
            let later = first_index(all, f);
            if later < bytes.len() {
                assert(all[later] == bytes[later]);
            }
        }
    }
}

} // verus!
