//! The protocol's commands, and the parser from a frame's verb to a command.
use crate::buffer::buf_bytes;
use crate::error::FtlError;
use crate::text::same_text;
use bytes::BytesMut;
use vstd::prelude::*;

verus! {

/// The verbs of the handshake.
#[derive(Debug, Clone, Copy, PartialEq, Eq, Structural)]
pub enum Command {
    Hmac,
    Connect,
    Ping,
    Dot,
}

/// A command as it came off the wire: the verb and, where the protocol
/// gives the verb a body, the body's bytes.
#[derive(Debug)]
pub struct FtlCommand {
    command: Command,
    data: Option<BytesMut>,
}

/// What an [`FtlCommand`] holds.
pub struct FtlCommandView {
    pub command: Command,
    pub data: Option<Seq<u8>>,
}

impl View for FtlCommand {
    type V = FtlCommandView;

    closed spec fn view(&self) -> FtlCommandView {
        FtlCommandView {
            command: self.command,
            data: match self.data {
                Some(body) => Some(buf_bytes(body)),
                None => None,
            },
        }
    }
}

/// The command that a verb names. Verbs are matched whole and by case.
pub open spec fn verb_command(verb: Seq<char>) -> Option<Command> {
    if verb == "HMAC"@ {
        Some(Command::Hmac)
    } else if verb == "CONNECT"@ {
        Some(Command::Connect)
    } else if verb == "PING"@ {
        Some(Command::Ping)
    } else if verb == "DOT"@ {
        Some(Command::Dot)
    } else {
        None
    }
}

impl FtlCommand {
    pub fn new(command: Command, data: Option<BytesMut>) -> (made: FtlCommand)
        ensures
            made@.command == command,
            made@.data == match data {
                Some(body) => Some(buf_bytes(body)),
                None => None,
            },
    {
        FtlCommand { command, data }
    }

    /// The verb.
    pub fn command(&self) -> (command: Command)
        ensures
            command == self@.command,
    {
        self.command
    }

    /// The body, if the command has one.
    pub fn data(&self) -> (data: Option<&BytesMut>)
        ensures
            match data {
                Some(body) => self@.data == Some(buf_bytes(*body)),
                None => self@.data is None,
            },
    {
        self.data.as_ref()
    }

    /// Parses the verb of a frame. One of the protocol's verbs gives its
    /// command, with no body; anything else is refused, and the refusal
    /// carries the verb as given.
    pub fn parse(verb: String) -> (parsed: Result<FtlCommand, FtlError>)
        ensures
            match verb_command(verb@) {
                Some(command) => parsed matches Ok(found) && found@.command == command
                    && found@.data is None,
                None => parsed matches Err(FtlError::Unsupported(raw)) && raw@ == verb@,
            },
    {
        let command = if same_text(verb.as_str(), "HMAC") {
            Command::Hmac
        } else if same_text(verb.as_str(), "CONNECT") {
            Command::Connect
        } else if same_text(verb.as_str(), "PING") {
            Command::Ping
        } else if same_text(verb.as_str(), "DOT") {
            Command::Dot
        } else {
            return Err(FtlError::Unsupported(verb));
        };
        Ok(FtlCommand::new(command, None))
    }
}

} // verus!
