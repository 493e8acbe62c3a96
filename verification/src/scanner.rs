//! The delimiter scanner: how far the tail of a byte stream has got into
//! `CR LF CR LF`.
use vstd::prelude::*;

verus! {

/// Carriage return.
pub const CR: u8 = 0x0d;

/// Line feed.
pub const LF: u8 = 0x0a;

/// Number of bytes in the frame delimiter.
pub const DELIMITER_LEN: usize = 4;

/// The frame delimiter, `CR LF CR LF`.
pub open spec fn delimiter() -> Seq<u8> {
    seq![CR, LF, CR, LF]
}

/// The last `p` bytes of `s` are the first `p` bytes of the delimiter.
#[verifier::opaque]
pub open spec fn tail_matches(s: Seq<u8>, p: int) -> bool {
    &&& 0 <= p <= DELIMITER_LEN
    &&& p <= s.len()
    &&& forall|i: int| 0 <= i < p ==> s[s.len() - p + i] == delimiter()[i]
}

/// `s` ends with the whole delimiter.
pub open spec fn terminated(s: Seq<u8>) -> bool {
    tail_matches(s, 4)
}

/// The largest number of leading delimiter bytes that `s` ends with.
pub open spec fn progress(s: Seq<u8>) -> nat {
    if tail_matches(s, 4) {
        4
    } else if tail_matches(s, 3) {
        3
    } else if tail_matches(s, 2) {
        2
    } else if tail_matches(s, 1) {
        1
    } else {
        0
    }
}

/// The scanner's transition: a byte that continues the match advances it, any
/// other byte starts the match over at that byte.
pub open spec fn scan_step(matched: nat, byte: u8) -> nat {
    if matched < DELIMITER_LEN && byte == delimiter()[matched as int] {
        matched + 1
    } else if byte == CR {
        1
    } else {
        0
    }
}

/// One step of the scanner on `byte`, with `matched` delimiter bytes seen so
/// far. The result is 4 exactly when `byte` completes the delimiter.
pub fn scan_byte(matched: usize, byte: u8) -> (next: usize)
    ensures
        next == scan_step(matched as nat, byte),
        next <= DELIMITER_LEN,
{
    let continues = match matched {
        0 | 2 => byte == CR,
        1 | 3 => byte == LF,
        _ => false,
    };
    if continues {
        matched + 1
    } else if byte == CR {
        1
    } else {
        0
    }
}

/// A terminated sequence is some bytes and then the delimiter.
pub proof fn lemma_terminated_ends_in_delimiter(s: Seq<u8>)
    requires
        terminated(s),
    ensures
        s.len() >= DELIMITER_LEN,
        s.skip(s.len() - DELIMITER_LEN) == delimiter(),
{
    reveal(tail_matches);
}

/// With no bytes read, no progress is made.
pub proof fn lemma_progress_of_nothing()
    ensures
        progress(Seq::<u8>::empty()) == 0,
{
    reveal(tail_matches);
}

/// Restarting at the mismatching byte loses no match: stepping the scanner
/// from the progress of `s` gives the progress of `s` with `byte` appended.
pub proof fn lemma_scan_step_tracks_progress(s: Seq<u8>, byte: u8)
    requires
        !terminated(s),
    ensures
        scan_step(progress(s), byte) == progress(s.push(byte)),
{
    reveal(tail_matches);
}

} // verus!
