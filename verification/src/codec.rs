//! The decoder: one per connection, fed the read buffer after every read.
use crate::buffer::{buf_advance, buf_as_slice, buf_bytes};
use crate::command::{verb_command, FtlCommand};
use crate::error::FtlError;
use crate::laws::lemma_frame_end_extends;
use crate::model::{frame_end, CodecState, Outcome};
use crate::scanner::{
    lemma_progress_of_nothing, lemma_scan_step_tracks_progress,
    lemma_terminated_ends_in_delimiter, progress, scan_byte, DELIMITER_LEN,
};
use crate::text::{lossy_text, utf8_lossy};
use bytes::BytesMut;
use vstd::prelude::*;
use vstd::utf8::{decode_utf8, valid_utf8};

verus! {

/// The most bytes a frame may hold, delimiter included, unless the decoder
/// is made with a limit of its own.
pub const DEFAULT_MAX_FRAME_LEN: usize = 8192;

/// The framer of one connection.
///
/// It holds the bytes of the frame that is coming in, how far their tail has
/// got into the delimiter, the connection's read quota, and the most bytes a
/// frame may grow to.
#[derive(Clone, Debug, Eq, PartialEq, Ord, PartialOrd, Hash)]
pub struct FtlCodec {
    delimiter_chars_read: usize,
    command_buffer: Vec<u8>,
    bytes_read: usize,
    max_frame_len: usize,
}

impl View for FtlCodec {
    type V = CodecState;

    closed spec fn view(&self) -> CodecState {
        CodecState {
            matched: self.delimiter_chars_read as nat,
            frame: self.command_buffer@,
            quota: self.bytes_read as nat,
            limit: self.max_frame_len as nat,
        }
    }
}

/// Whether `result` is what a call of `decode` returns for `outcome`.
///
/// An open frame is `Ok(None)`. A closed frame is read as text, lossily, and
/// parsed: a verb of the protocol is `Ok(Some(..))` with that command and no
/// body, any other is `Unsupported` with the text. Where the verb is valid
/// UTF-8 that text is the verb decoded. The two refusals are errors of their
/// own.
pub open spec fn reports(result: Result<Option<FtlCommand>, FtlError>, outcome: Outcome) -> bool {
    match outcome {
        Outcome::Closed => result matches Err(FtlError::ConnectionClosed),
        Outcome::Overflow => result matches Err(FtlError::BufferOverflow),
        Outcome::Pending => result matches Ok(None),
        Outcome::Frame(verb) => {
            &&& valid_utf8(verb) ==> utf8_lossy(verb) == decode_utf8(verb)
            &&& match verb_command(utf8_lossy(verb)) {
                Some(command) => result matches Ok(Some(found)) && found@.command == command
                    && found@.data is None,
                None => result matches Err(FtlError::Unsupported(raw)) && raw@ == utf8_lossy(
                    verb,
                ),
            }
        },
    }
}

impl FtlCodec {
    /// The decoder's invariant: see [`CodecState::wf`].
    pub open spec fn wf(&self) -> bool {
        self@.wf()
    }

    /// A decoder for a connection that may read `bytes_read` bytes, with
    /// frames of up to [`DEFAULT_MAX_FRAME_LEN`] bytes.
    pub fn new(bytes_read: usize) -> (codec: FtlCodec)
        ensures
            codec.wf(),
            codec@ == CodecState::fresh(bytes_read as nat, DEFAULT_MAX_FRAME_LEN as nat),
    {
        FtlCodec::with_max_frame_len(bytes_read, DEFAULT_MAX_FRAME_LEN)
    }

    /// A decoder for a connection that may read `bytes_read` bytes, with
    /// frames of up to `max_frame_len` bytes, delimiter included.
    pub fn with_max_frame_len(bytes_read: usize, max_frame_len: usize) -> (codec: FtlCodec)
        ensures
            codec.wf(),
            codec@ == CodecState::fresh(bytes_read as nat, max_frame_len as nat),
    {
        proof {
            lemma_progress_of_nothing();
        }
        FtlCodec {
            delimiter_chars_read: 0,
            command_buffer: Vec::new(),
            bytes_read,
            max_frame_len,
        }
    }

    /// The bytes taken since the last frame closed.
    pub fn buffered(&self) -> (frame: &[u8])
        ensures
            frame@ == self@.frame,
    {
        self.command_buffer.as_slice()
    }

    /// How many leading delimiter bytes the frame so far ends with.
    pub fn delimiter_progress(&self) -> (matched: usize)
        ensures
            matched == self@.matched,
    {
        self.delimiter_chars_read
    }

    /// The connection's read quota.
    pub fn quota(&self) -> (quota: usize)
        ensures
            quota == self@.quota,
    {
        self.bytes_read
    }

    /// The most bytes a frame may hold, delimiter included.
    pub fn max_frame_len(&self) -> (limit: usize)
        ensures
            limit == self@.limit,
    {
        self.max_frame_len
    }

    /// Forgets the frame so far and sets a new quota. The limit stays.
    pub fn reset(&mut self, bytes_read: usize)
        ensures
            final(self).wf(),
            final(self)@ == old(self)@.reset(bytes_read as nat),
    {
        proof {
            lemma_progress_of_nothing();
        }
        self.bytes_read = bytes_read;
        self.command_buffer = Vec::new();
        self.delimiter_chars_read = 0;
    }

    /// Takes bytes from the front of `buf` into the frame, up to the byte
    /// that closes it.
    ///
    /// What happens is [`CodecState::decode`] on the decoder's state and the
    /// bytes of `buf`: the decoder goes to the state given there, `buf` loses
    /// the bytes that were taken and keeps the rest, and the result reports
    /// the outcome as [`reports`] says.
    pub fn decode(&mut self, buf: &mut BytesMut) -> (result: Result<Option<FtlCommand>, FtlError>)
        requires
            old(self).wf(),
        ensures
            final(self).wf(),
            final(self)@ == old(self)@.decode(buf_bytes(*old(buf))).next,
            buf_bytes(*final(buf)) == buf_bytes(*old(buf)).skip(
                old(self)@.decode(buf_bytes(*old(buf))).taken as int,
            ),
            reports(result, old(self)@.decode(buf_bytes(*old(buf))).outcome),
            result matches Err(FtlError::ConnectionClosed) <==> old(self)@.quota == 0,
            old(self)@.quota == 0 ==> final(self)@ == old(self)@ && buf_bytes(*final(buf))
                == buf_bytes(*old(buf)),
    {
        if self.bytes_read == 0 {
            return Err(FtlError::ConnectionClosed);
        }
        let ghost start = self@;
        let ghost input = buf_bytes(*buf);
        let chunk = buf_as_slice(buf);
        let mut taken: usize = 0;
        let mut closed = false;
        proof {
        }
        while taken < chunk.len() && self.command_buffer.len() < self.max_frame_len && !closed
            invariant
                start.wf(),
                chunk@ == input,
                taken <= chunk.len(),
                self.bytes_read == start.quota,
                self.max_frame_len == start.limit,
                self.command_buffer@ == start.frame + input.take(taken as int),
                self.command_buffer.len() <= self.max_frame_len,
                self.delimiter_chars_read == progress(self.command_buffer@),
                closed <==> self.delimiter_chars_read == DELIMITER_LEN,
                closed ==> frame_end(start.frame, input.take(taken as int)) == Some(taken as nat),
                !closed ==> frame_end(start.frame, input.take(taken as int)) is None,
            decreases chunk.len() - taken,
        {
            let byte = chunk[taken];
            proof {
                lemma_scan_step_tracks_progress(self.command_buffer@, byte);
                assert(input.take(taken + 1).drop_last() =~= input.take(taken as int));
                assert(start.frame + input.take(taken + 1) =~= self.command_buffer@.push(byte));
            }
            self.command_buffer.push(byte);
            self.delimiter_chars_read = scan_byte(self.delimiter_chars_read, byte);
            taken += 1;
            closed = self.delimiter_chars_read == DELIMITER_LEN;
        }
        proof {
            let admitted = start.admitted(input);
            let seen = input.take(taken as int);
            assert(admitted =~= seen + admitted.skip(taken as int));
            lemma_frame_end_extends(start.frame, seen, admitted.skip(taken as int));
            if !closed {
            }
        }
        let refused = taken < chunk.len();
        buf_advance(buf, taken);
        if closed {
            proof {
                lemma_terminated_ends_in_delimiter(self.command_buffer@);
            }
            let verb_len = self.command_buffer.len() - DELIMITER_LEN;
            self.command_buffer.truncate(verb_len);
            let verb = lossy_text(self.command_buffer.as_slice());
            self.command_buffer = Vec::new();
            self.delimiter_chars_read = 0;
            proof {
                lemma_progress_of_nothing();
            }
            match FtlCommand::parse(verb) {
                Ok(command) => Ok(Some(command)),
                Err(refusal) => Err(refusal),
            }
        } else if refused {
            Err(FtlError::BufferOverflow)
        } else {
            Ok(None)
        }
    }
}

} // verus!
