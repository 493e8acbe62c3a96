//! Why a decode, or the connection under it, failed.
use vstd::prelude::*;
use vstd::string::to_string_from_display_ensures;

verus! {

/// `std::io::Error`, carried through and never looked into.
#[verifier::external_type_specification]
#[verifier::external_body]
pub struct ExIoError(std::io::Error);

/// A failure on an ingest connection. Every one of them is fatal: the
/// connection is to be closed.
#[derive(Debug)]
pub enum FtlError {
    /// The read quota is spent.
    ConnectionClosed,
    /// A whole frame came in, but its verb is not one of the protocol's.
    /// Carries the verb as it was read.
    Unsupported(String),
    /// More bytes came in than a frame may hold, and no delimiter among them.
    BufferOverflow,
    /// The transport failed.
    Io(std::io::Error),
}

impl From<std::io::Error> for FtlError {
    fn from(e: std::io::Error) -> (err: FtlError) {
        FtlError::Io(e)
    }
}

impl vstd::std_specs::convert::FromSpecImpl<std::io::Error> for FtlError {
    open spec fn obeys_from_spec() -> bool {
        true
    }

    open spec fn from_spec(e: std::io::Error) -> FtlError {
        FtlError::Io(e)
    }
}

impl FtlError {
    /// The failure in words, for logs and for the peer. A transport failure
    /// speaks for itself: its text is the one that `std::io::Error` displays.
    pub fn message(&self) -> (text: String)
        ensures
            self is ConnectionClosed ==> text@ == "Connection Closed"@,
            self is BufferOverflow ==> text@ == "Command buffer overflow"@,
            self matches FtlError::Unsupported(verb) ==> text@ == "Unsupported FTL Command "@
                + verb@ + "! Bug GRVY to support this"@,
            self matches FtlError::Io(e) ==> to_string_from_display_ensures::<std::io::Error>(
                e,
                text,
            ),
    {
        match self {
            FtlError::ConnectionClosed => "Connection Closed".to_owned(),
            FtlError::BufferOverflow => "Command buffer overflow".to_owned(),
            FtlError::Unsupported(verb) => {
                let mut text = "Unsupported FTL Command ".to_owned();
                text.append(verb.as_str());
                text.append("! Bug GRVY to support this");
                text
            },
            FtlError::Io(e) => e.to_string(),
        }
    }
}

} // verus!
