//! Incremental framer for the FTL ingest handshake.
//!
//! Commands arrive as a verb followed by `CR LF CR LF`, possibly spread over
//! many reads. [`FtlCodec`] collects the bytes of one frame at a time, finds
//! the delimiter wherever the reads happen to cut it, bounds the memory a
//! frame may take, and turns a finished frame into an [`FtlCommand`].
//!
//! - [`scanner`]: the delimiter, and the matcher that follows it byte by byte.
//! - [`model`]: the decoder's state and one call of `decode`, as mathematics.
//! - [`laws`]: what holds of that model whatever the input.
//! - [`codec`]: the decoder itself, proved to do what the model says.
//! - [`command`], [`error`]: what a decode yields.
//! - [`buffer`], [`text`]: what is taken on trust from `bytes` and from std.
pub mod buffer;
pub mod codec;
pub mod command;
pub mod error;
pub mod laws;
pub mod model;
pub mod scanner;
pub mod text;

pub use codec::{FtlCodec, DEFAULT_MAX_FRAME_LEN};
pub use command::{Command, FtlCommand};
pub use error::FtlError;
