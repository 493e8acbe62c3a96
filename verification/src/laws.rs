//! What holds of the decoder whatever it is fed.
use crate::model::{frame_end, CodecState, Outcome, Step};
use crate::scanner::{
    delimiter, lemma_progress_of_nothing, tail_matches, terminated, CR, DELIMITER_LEN,
};
use vstd::prelude::*;

verus! {

/// A frame ends at the first byte that completes the delimiter, and nowhere
/// before: `frame_end` is the least count of bytes after which the stream
/// ends with `CR LF CR LF`, and `None` only when no count does.
pub proof fn lemma_frame_end_is_first(held: Seq<u8>, input: Seq<u8>)
    ensures
        match frame_end(held, input) {
            Some(k) => {
                &&& 0 < k <= input.len()
                &&& terminated(held + input.take(k as int))
                &&& forall|j: int| 0 < j < k ==> !terminated(held + #[trigger] input.take(j))
            },
            None => forall|j: int|
                0 < j <= input.len() ==> !terminated(held + #[trigger] input.take(j)),
        },
    decreases input.len(),
{
    if input.len() > 0 {
        let front = input.drop_last();
        lemma_frame_end_is_first(held, front);
        assert(input.take(input.len() as int) =~= input);
        assert(forall|j: int| 0 < j < input.len() ==> #[trigger] input.take(j) == front.take(j));
    }
}

/// More input behind a frame's end does not move the end, and an end that
/// lies in the later input is found there, counted from where it starts.
pub proof fn lemma_frame_end_extends(held: Seq<u8>, a: Seq<u8>, b: Seq<u8>)
    ensures
        frame_end(held, a + b) == match frame_end(held, a) {
            Some(k) => Some(k),
            None => match frame_end(held + a, b) {
                Some(k) => Some(k + a.len()),
                None => None,
            },
        },
    decreases b.len(),
{
    if b.len() > 0 {
        lemma_frame_end_extends(held, a, b.drop_last());
        assert((a + b).drop_last() =~= a + b.drop_last());
        assert(held + (a + b) =~= (held + a) + b);
    }
}

/// A call of `decode` leaves the decoder well formed: the frame it holds is
/// never longer than the limit.
pub proof fn lemma_decode_keeps_wf(st: CodecState, input: Seq<u8>)
    requires
        st.wf(),
    ensures
        st.decode(input).next.wf(),
        st.decode(input).taken <= input.len(),
{
    let admitted = st.admitted(input);
    lemma_frame_end_is_first(st.frame, admitted);
    lemma_progress_of_nothing();
}

/// The frame is given up only when it closes. A call that does not close
/// the frame leaves it as it was with the bytes it took behind it, and a call
/// that closes it leaves it empty.
pub proof fn lemma_frame_kept_until_closed(st: CodecState, input: Seq<u8>)
    ensures
        st.decode(input).outcome is Frame ==> st.decode(input).next.frame.len() == 0,
        !(st.decode(input).outcome is Frame) ==> st.decode(input).next.frame == st.frame
            + input.take(st.decode(input).taken as int),
{
}

/// Cutting the input in two changes nothing: if the first part leaves the
/// frame open, decoding the second part from there ends as decoding both at
/// once does; if it does not, decoding both at once ends as the first part
/// did.
pub proof fn lemma_decode_in_two(st: CodecState, a: Seq<u8>, b: Seq<u8>)
    requires
        st.wf(),
    ensures
        st.decode(a).outcome is Pending ==> {
            let then = st.decode(a).next.decode(b);
            &&& st.decode(a + b).next == then.next
            &&& st.decode(a + b).outcome == then.outcome
            &&& st.decode(a + b).taken == a.len() + then.taken
        },
        !(st.decode(a).outcome is Pending) ==> st.decode(a + b) == st.decode(a),
{
    if st.quota > 0 {
        let first = st.decode(a);
        let fit_a = st.admitted(a);
        let fit_ab = st.admitted(a + b);
        if first.outcome is Pending {
            let mid = first.next;
            let fit_b = mid.admitted(b);
            assert(fit_ab =~= a + fit_b);
            lemma_frame_end_extends(st.frame, a, fit_b);
            lemma_frame_end_is_first(mid.frame, fit_b);
            match frame_end(mid.frame, fit_b) {
                Some(k) => {
                    assert(st.frame + (a + b).take((k + a.len()) as int) =~= mid.frame + b.take(
                        k as int,
                    ));
                },
                None => {
                    assert(st.frame + fit_ab =~= mid.frame + fit_b);
                },
            }
        } else {
            assert(fit_ab =~= fit_a + fit_ab.skip(fit_a.len() as int));
            lemma_frame_end_extends(st.frame, fit_a, fit_ab.skip(fit_a.len() as int));
            lemma_frame_end_is_first(st.frame, fit_a);
            if let Some(k) = frame_end(st.frame, fit_a) {
                assert((a + b).take(k as int) =~= a.take(k as int));
            }
        }
    }
}

/// Chunk boundaries are invisible. Feeding a stream to `decode` in any
/// number of pieces, cut anywhere, ends in the state and with the outcome
/// of feeding it in one call.
pub proof fn lemma_chunking_is_invisible(st: CodecState, chunks: Seq<Seq<u8>>)
    requires
        st.wf(),
        chunks.len() > 0,
    ensures
        st.feed(chunks).0 == st.decode(chunks.flatten()).next,
        st.feed(chunks).1 == st.decode(chunks.flatten()).outcome,
    decreases chunks.len(),
{
    reveal_with_fuel(CodecState::feed, 2);
    let front = chunks.drop_last();
    chunks.lemma_flatten_and_flatten_alt_are_equivalent();
    front.lemma_flatten_and_flatten_alt_are_equivalent();
    if front.len() > 0 {
        lemma_chunking_is_invisible(st, front);
        lemma_decode_in_two(st, front.flatten(), chunks.last());
    }
}

/// The quota gate. A decoder with no quota left reports that it is closed,
/// whatever it is offered, and takes and changes nothing.
pub proof fn lemma_no_quota_no_decode(st: CodecState, input: Seq<u8>)
    requires
        st.quota == 0,
    ensures
        st.decode(input) == (Step { next: st, taken: 0, outcome: Outcome::Closed }),
{
}

/// A decoder that closed a frame is, after a reset, a new decoder: whatever
/// comes next is decoded as a decoder just made with that quota and limit
/// would decode it.
pub proof fn lemma_reset_starts_over(st: CodecState, quota: nat, input: Seq<u8>)
    ensures
        st.reset(quota) == CodecState::fresh(quota, st.limit),
        st.decode(input).outcome is Frame ==> st.decode(input).next.reset(quota)
            == CodecState::fresh(quota, st.limit),
        st.reset(quota).decode(input) == CodecState::fresh(quota, st.limit).decode(input),
{
}

/// The overflow bound. When the bytes offered would take the frame past its
/// limit, and none of those it has room for completes the delimiter, the
/// call overflows: the frame is filled to the limit and no further.
pub proof fn lemma_overflow_bound(st: CodecState, input: Seq<u8>)
    requires
        st.wf(),
        st.quota > 0,
        st.frame.len() + input.len() > st.limit,
        forall|j: int| 0 < j <= st.room() ==> !terminated(st.frame + #[trigger] input.take(j)),
    ensures
        st.decode(input).outcome is Overflow,
        st.decode(input).taken == st.room(),
        st.decode(input).next.frame.len() == st.limit,
{
    let admitted = st.admitted(input);
    lemma_frame_end_is_first(st.frame, admitted);
    if let Some(k) = frame_end(st.frame, admitted) {
        assert(admitted.take(k as int) =~= input.take(k as int));
    }
}

/// The overflow bound over many calls: however the bytes are cut into
/// chunks, feeding them ends in an overflow with the frame at its limit.
pub proof fn lemma_feed_overflows(st: CodecState, chunks: Seq<Seq<u8>>)
    requires
        st.wf(),
        st.quota > 0,
        chunks.len() > 0,
        st.frame.len() + chunks.flatten().len() > st.limit,
        forall|j: int|
            0 < j <= st.room() ==> !terminated(st.frame + #[trigger] chunks.flatten().take(j)),
    ensures
        st.feed(chunks).1 is Overflow,
        st.feed(chunks).0.frame.len() == st.limit,
{
    lemma_chunking_is_invisible(st, chunks);
    lemma_overflow_bound(st, chunks.flatten());
}

/// A frame and what follows it. Offered a verb with no carriage return in
/// it, the delimiter, and any bytes behind, a decoder with an empty frame
/// and room for verb and delimiter closes the frame on the verb, takes
/// exactly verb and delimiter, and leaves every byte behind them untaken.
pub proof fn lemma_frame_then_trailer(st: CodecState, verb: Seq<u8>, trailer: Seq<u8>)
    requires
        st.wf(),
        st.quota > 0,
        st.frame.len() == 0,
        verb.len() + DELIMITER_LEN <= st.limit,
        forall|i: int| 0 <= i < verb.len() ==> verb[i] != CR,
    ensures
        st.decode(verb + delimiter() + trailer) == (Step {
            next: st.reset(st.quota),
            taken: verb.len() + DELIMITER_LEN as nat,
            outcome: Outcome::Frame(verb),
        }),
{
    let input = verb + delimiter() + trailer;
    let admitted = st.admitted(input);
    let end = verb.len() + DELIMITER_LEN;
    assert(admitted.take(end as int) =~= verb + delimiter());
    assert forall|j: int| 0 < j <= end implies (terminated(
        st.frame + #[trigger] admitted.take(j),
    ) <==> j == end) by {
        reveal(tail_matches);
    }
    lemma_frame_end_is_first(st.frame, admitted);
    assert(st.frame + input.take(end as int) =~= verb + delimiter());
    assert((verb + delimiter()).take(verb.len() as int) =~= verb);
}

} // verus!
