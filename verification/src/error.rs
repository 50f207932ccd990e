//! The ways in which an operation of the client can fail.

use crate::foreign::io_error_text;
use crate::text::{append_decimal, decimal_chars};
use vstd::prelude::*;

verus! {

/// Why an operation failed.
#[derive(Debug)]
pub enum Error {
    /// The socket failed, or the peer hung up.
    Connection(String),
    /// The handshake was malformed or rejected.
    Handshake(String),
    /// Client and server speak different versions of the protocol.
    VersionMismatch { server: u8, client: u8 },
    /// The server refused the credential.
    AuthFailed,
    /// An input or output operation failed.
    Io(std::io::Error),
    /// The peer sent what the protocol does not allow.
    Protocol(String),
    /// A payload could not be written or read in the agreed encoding.
    Serialization(String),
    /// The server reported an error of its own.
    Server(String),
    /// The caller's deadline passed.
    Timeout,
    /// The connection was torn down before the operation completed.
    ChannelClosed,
}

impl Error {
    /// The error as one line of text, where it is fixed by the error's
    /// fields: all kinds but `Io`.
    pub open spec fn message(self) -> Seq<char> {
        match self {
            Error::Connection(why) => "Connection error: "@ + why@,
            Error::Handshake(why) => "Handshake failed: "@ + why@,
            Error::VersionMismatch { server, client } => "Protocol version mismatch: server="@
                + decimal_chars(server as nat) + ", client="@ + decimal_chars(client as nat),
            Error::AuthFailed => "Authentication failed"@,
            Error::Io(_) => "IO error: "@,
            Error::Protocol(why) => "Protocol error: "@ + why@,
            Error::Serialization(why) => "Serialization error: "@ + why@,
            Error::Server(why) => "Server error: "@ + why@,
            Error::Timeout => "Timeout"@,
            Error::ChannelClosed => "Channel closed"@,
        }
    }

    /// The error as one line of text. For an `Io` error the text of the
    /// underlying error follows the label.
    pub fn to_string(&self) -> (text: String)
        ensures
            self.message().is_prefix_of(text@),
            !(self is Io) ==> text@ == self.message(),
    {
        match self {
            Error::Connection(why) => String::from_str("Connection error: ").concat(why.as_str()),
            Error::Handshake(why) => String::from_str("Handshake failed: ").concat(why.as_str()),
            Error::VersionMismatch { server, client } => {
                let mut text = String::from_str("Protocol version mismatch: server=");
                append_decimal(&mut text, *server as u64);
                text.append(", client=");
                append_decimal(&mut text, *client as u64);
                assert(text@ =~= self.message());
                text
            },
            Error::AuthFailed => String::from_str("Authentication failed"),
            Error::Io(e) => {
                let detail = io_error_text(e);
                String::from_str("IO error: ").concat(detail.as_str())
            },
            Error::Protocol(why) => String::from_str("Protocol error: ").concat(why.as_str()),
            Error::Serialization(why) => String::from_str("Serialization error: ").concat(
                why.as_str(),
            ),
            Error::Server(why) => String::from_str("Server error: ").concat(why.as_str()),
            Error::Timeout => String::from_str("Timeout"),
            Error::ChannelClosed => String::from_str("Channel closed"),
        }
    }
}

impl From<std::io::Error> for Error {
    fn from(e: std::io::Error) -> (r: Self) {
        Error::Io(e)
    }
}

impl vstd::std_specs::convert::FromSpecImpl<std::io::Error> for Error {
    open spec fn obeys_from_spec() -> bool {
        true
    }

    open spec fn from_spec(e: std::io::Error) -> Self {
        Error::Io(e)
    }
}

} // verus!
