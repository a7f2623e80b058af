//! What is taken for a request, told by the bytes that came.
use crate::control::{ends_frame, fed, frame_cut_off, framed, refusal_text, FrameView, Refusal};
use crate::error::{error_text, ErrorView, IoError};
use crate::sequence::{first_index, lemma_first_index};
use crate::signal::{signal_read, SignalStepView};
use vstd::prelude::*;

verus! {

/// Bytes amount to a whole request exactly up to their first line feed, where that is among the
/// first 65536 bytes. They amount to a request that is too long where there are more than so many
/// bytes and none of the first so many is a line feed. Otherwise more has to come, and nothing of
/// what came is lost.
pub proof fn law_requests_end_at_the_first_line_feed(bytes: Seq<u8>)
    ensures
        framed(bytes) matches FrameView::Complete(request) ==> {
            &&& 0 < request.len() <= 65536
            &&& request.len() <= bytes.len()
            &&& request == bytes.take(request.len() as int)
            &&& request.last() == 10
            &&& forall|i: int| 0 <= i < request.len() - 1 ==> #[trigger] request[i] != 10
        },
        framed(bytes) matches FrameView::Partial(kept) ==> {
            &&& kept == bytes
            &&& bytes.len() <= 65536
            &&& forall|i: int| 0 <= i < bytes.len() ==> #[trigger] bytes[i] != 10
        },
        framed(bytes) matches FrameView::Refused(refusal) ==> {
            &&& refusal == Refusal::TooLong
            &&& bytes.len() > 65536
            &&& forall|i: int| 0 <= i < 65536 ==> #[trigger] bytes[i] != 10
        },
{
    let f = ends_frame();
    lemma_first_index(bytes, f);
    let end = first_index(bytes, f);
    assert forall|i: int| 0 <= i < end implies #[trigger] bytes[i] != 10 by {
        assert(!f(bytes[i]));
    }
    if end < bytes.len() {
        let request = bytes.take(end + 1);
        assert(f(bytes[end]));
        assert(request.last() == bytes[end]);
        assert forall|i: int| 0 <= i < request.len() - 1 implies #[trigger] request[i] != 10 by {
            assert(request[i] == bytes[i]);
        }
    }
}

/// A client that is done without a line feed has sent nothing, or something unfinished. Each
/// refusal is answered with what was wrong.
pub proof fn law_unfinished_requests_are_refused(bytes: Seq<u8>)
    ensures
        bytes.len() == 0 ==> frame_cut_off(bytes) == FrameView::Refused(Refusal::Empty),
        bytes.len() > 0 ==> frame_cut_off(bytes) == FrameView::Refused(Refusal::Unterminated),
        refusal_text(Refusal::Empty) == "empty control request"@,
        refusal_text(Refusal::Unterminated) == "unterminated control request"@,
        refusal_text(Refusal::TooLong) == "control request exceeds 65536 bytes"@,
{
}

/// Bytes that come later count as if they had come at once: a request is whole exactly where the
/// bytes before and those that came, taken together, hold a line feed among the first 65536. It is
/// kept in full as long as more has to come.
pub proof fn law_bytes_are_kept_until_the_line_feed(bytes: Seq<u8>, available: Seq<u8>)
    requires
        bytes.len() <= 65536,
        forall|i: int| 0 <= i < bytes.len() ==> #[trigger] bytes[i] != 10,
    ensures
        ({
            let all = bytes + available;
            &&& available.len() == 0 ==> fed(bytes, available) is Refused
            &&& available.len() > 0 ==> match fed(bytes, available) {
                FrameView::Complete(request) => {
                    &&& bytes.len() < request.len() <= 65536
                    &&& request.len() <= all.len()
                    &&& request == all.take(request.len() as int)
                    &&& request.last() == 10
                    &&& forall|i: int| 0 <= i < request.len() - 1 ==> #[trigger] request[i] != 10
                },
                FrameView::Partial(kept) => {
                    &&& kept == all
                    &&& all.len() <= 65536
                    &&& forall|i: int| 0 <= i < available.len() ==> #[trigger] available[i] != 10
                },
                FrameView::Refused(refusal) => {
                    &&& refusal == Refusal::TooLong
                    &&& all.len() > 65536
                    &&& forall|i: int| 0 <= i < 65536 ==> #[trigger] all[i] != 10
                },
            }
        }),
{
    let all = bytes + available;
    law_requests_end_at_the_first_line_feed(all);
    if available.len() > 0 {
        match framed(all) {
            FrameView::Complete(request) => {
                let n = request.len() - 1;
                assert(all[n] == request[n]);
                if n < bytes.len() {
                    assert(all[n] == bytes[n]);
                }
            },
            FrameView::Partial(kept) => {
                assert forall|i: int| 0 <= i < available.len() implies #[trigger] available[i]
                    != 10 by {
                    assert(all[bytes.len() + i] == available[i]);
                }
            },
            FrameView::Refused(_) => {},
        }
    }
}

/// An error is reported with what kind of error it is and with its whole message; a failed
/// operation with what was being done and why it failed.
pub proof fn law_errors_are_reported_whole(error: ErrorView)
    ensures
        error matches ErrorView::Io { context, source } ==> error_text(error) == context + ": "@
            + source.message,
        error matches ErrorView::Config(message) ==> error_text(error) == "configuration error: "@
            + message,
        error matches ErrorView::Policy(message) ==> error_text(error) == "policy error: "@
            + message,
        error matches ErrorView::Protocol(message) ==> error_text(error) == "protocol error: "@
            + message,
        error matches ErrorView::Usage(message) ==> error_text(error) == message,
{
}

/// What taking signals off comes to that goes through these attempts to read one, and none where
/// it does not end.
pub open spec fn signals_taken(seen: bool, reads: Seq<Result<bool, IoError>>) -> Option<
    Result<bool, ErrorView>,
>
    decreases reads.len(),
{
    if reads.len() == 0 {
        None
    } else {
        match signal_read(seen, reads[0]) {
            SignalStepView::Done(r) => Some(r),
            SignalStepView::Read(now) => signals_taken(now, reads.skip(1)),
        }
    }
}

/// There was a signal exactly where one of the reads gave one. Interruptions make no difference.
pub proof fn law_signals_are_seen(seen: bool, reads: Seq<Result<bool, IoError>>)
    requires
        reads.len() > 0,
        reads.last() matches Ok(found) && !found,
        forall|i: int|
            0 <= i < reads.len() - 1 ==> match #[trigger] reads[i] {
                Ok(found) => found,
                Err(error) => error.os_code == Some(4i32),
            },
    ensures
        signals_taken(seen, reads) == Some(
            Ok::<bool, ErrorView>(
                seen || exists|i: int| 0 <= i < reads.len() && (#[trigger] reads[i] matches Ok(found) && found),
            ),
        ),
    decreases reads.len(),
{
    if reads.len() > 1 {
        let rest = reads.skip(1);
        assert(rest.last() == reads.last());
        assert forall|i: int| 0 <= i < rest.len() - 1 implies match #[trigger] rest[i] {
            Ok(found) => found,
            Err(error) => error.os_code == Some(4i32),
        } by {
            assert(rest[i] == reads[i + 1]);
        }
        let first = reads[0] matches Ok(found) && found;
        law_signals_are_seen(seen || first, rest);
        if exists|i: int| 0 <= i < rest.len() && (#[trigger] rest[i] matches Ok(found) && found) {
            let i = choose|i: int|
                0 <= i < rest.len() && (#[trigger] rest[i] matches Ok(found) && found);
            assert(reads[i + 1] == rest[i]);
        }
        if exists|i: int| 0 <= i < reads.len() && (#[trigger] reads[i] matches Ok(found) && found) {
            let i = choose|i: int|
                0 <= i < reads.len() && (#[trigger] reads[i] matches Ok(found) && found);
            if i > 0 {
                assert(rest[i - 1] == reads[i]);
            }
        }
    } else {
        assert(reads[0] == reads.last());
    }
}

/// A read that failed otherwise than by an interruption ends it with that failure.
pub proof fn law_failed_reads_end_it(seen: bool, error: IoError)
    requires
        error.os_code != Some(4i32),
    ensures
        signal_read(seen, Err(error)) == SignalStepView::Done(
            Err(
                ErrorView::Io {
                    context: "failed to read shutdown signal descriptor"@,
                    source: error@,
                },
            ),
        ),
{
}

} // verus!
