//! The decoder as mathematics: its state, and what one call of `decode` does
//! to it, over plain byte sequences.
use crate::scanner::{progress, terminated, DELIMITER_LEN};
use vstd::prelude::*;

verus! {

/// What one call of `decode` found.
pub enum Outcome {
    /// The quota is spent. Nothing was read.
    Closed,
    /// The frame would outgrow the limit before any delimiter came.
    Overflow,
    /// Every byte offered was taken and the frame is still open.
    Pending,
    /// A delimiter closed the frame. The bytes are the frame without its
    /// delimiter: the verb as it came over the wire.
    Frame(Seq<u8>),
}

/// The state of a decoder.
#[verifier::ext_equal]
pub struct CodecState {
    /// How many leading delimiter bytes the frame so far ends with.
    pub matched: nat,
    /// The bytes taken since the last frame closed.
    pub frame: Seq<u8>,
    /// Bytes the connection may still read. Zero closes the decoder.
    pub quota: nat,
    /// The most bytes a frame may hold, delimiter included.
    pub limit: nat,
}

/// One call of `decode`: the state it leaves, how many of the offered bytes
/// it took, and what it found.
#[verifier::ext_equal]
pub struct Step {
    pub next: CodecState,
    pub taken: nat,
    pub outcome: Outcome,
}

/// How many bytes of `input` it takes, after the bytes `held`, to complete
/// the delimiter for the first time; `None` when `input` never does.
pub open spec fn frame_end(held: Seq<u8>, input: Seq<u8>) -> Option<nat>
    decreases input.len(),
{
    if input.len() == 0 {
        None
    } else {
        match frame_end(held, input.drop_last()) {
            Some(k) => Some(k),
            None => if terminated(held + input) {
                Some(input.len())
            } else {
                None
            },
        }
    }
}

/// A closed frame without its delimiter.
pub open spec fn verb_of(frame: Seq<u8>) -> Seq<u8> {
    frame.take(frame.len() - DELIMITER_LEN)
}

impl CodecState {
    /// A decoder that has read nothing.
    pub open spec fn fresh(quota: nat, limit: nat) -> CodecState {
        CodecState { matched: 0, frame: Seq::empty(), quota, limit }
    }

    /// The frame is within the limit and still open, and `matched` is the
    /// scanner's progress on it.
    pub open spec fn wf(self) -> bool {
        &&& self.frame.len() <= self.limit
        &&& self.matched == progress(self.frame)
        &&& self.matched < DELIMITER_LEN
    }

    /// The state after a reset with a new quota.
    pub open spec fn reset(self, quota: nat) -> CodecState {
        CodecState::fresh(quota, self.limit)
    }

    /// The same decoder with `frame` as its frame so far.
    pub open spec fn holding(self, frame: Seq<u8>) -> CodecState {
        CodecState { matched: progress(frame), frame, quota: self.quota, limit: self.limit }
    }

    /// How many more bytes the frame may take.
    pub open spec fn room(self) -> nat {
        if self.frame.len() <= self.limit {
            (self.limit - self.frame.len()) as nat
        } else {
            0
        }
    }

    /// The part of `input` that the frame has room for.
    pub open spec fn admitted(self, input: Seq<u8>) -> Seq<u8> {
        if input.len() <= self.room() {
            input
        } else {
            input.take(self.room() as int)
        }
    }

    /// One call of `decode` on `input`.
    ///
    /// With no quota left nothing happens. Otherwise bytes are taken one by
    /// one while the frame has room. The byte that first completes the
    /// delimiter closes the frame: the decoder starts over and the bytes
    /// behind it are left untaken. If the room runs out first, the call
    /// overflows with the frame full; if the input runs out first, the frame
    /// stays open.
    pub open spec fn decode(self, input: Seq<u8>) -> Step {
        if self.quota == 0 {
            Step { next: self, taken: 0, outcome: Outcome::Closed }
        } else {
            let admitted = self.admitted(input);
            match frame_end(self.frame, admitted) {
                Some(k) => Step {
                    next: self.reset(self.quota),
                    taken: k,
                    outcome: Outcome::Frame(verb_of(self.frame + input.take(k as int))),
                },
                None => Step {
                    next: self.holding(self.frame + admitted),
                    taken: admitted.len(),
                    outcome: if admitted.len() < input.len() {
                        Outcome::Overflow
                    } else {
                        Outcome::Pending
                    },
                },
            }
        }
    }

    /// The state and the outcome after `decode` was called on each of
    /// `chunks` in turn, up to the first call that did not leave the frame
    /// open.
    pub open spec fn feed(self, chunks: Seq<Seq<u8>>) -> (CodecState, Outcome)
        decreases chunks.len(),
    {
        if chunks.len() == 0 {
            (self, Outcome::Pending)
        } else {
            let before = self.feed(chunks.drop_last());
            if before.1 is Pending {
                let step = before.0.decode(chunks.last());
                (step.next, step.outcome)
            } else {
                before
            }
        }
    }
}

} // verus!
