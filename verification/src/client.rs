//! What a caller chooses before connecting, and what the replies of the
//! server mean to each operation.

use crate::error::Error;
use crate::protocol::{ProtocolFlags, ServerMessage};
use crate::text::{address_chars, address_string, parse_decimal, signed_value};
use vstd::prelude::*;
use vstd::utf8::encode_utf8;

verus! {

/// Where to connect and what to offer in the handshake.
#[derive(Debug, Clone)]
pub struct ConnectOptions {
    pub host: String,
    pub port: u16,
    pub auth_token: Option<String>,
    pub use_messagepack: bool,
    pub json_fallback: bool,
}

impl ConnectOptions {
    /// Options for `host` and `port`: no credential, MessagePack preferred,
    /// JSON accepted.
    pub fn new(host: &str, port: u16) -> (opts: Self)
        ensures
            opts.host@ == host@,
            opts.port == port,
            opts.auth_token is None,
            opts.use_messagepack,
            opts.json_fallback,
    {
        ConnectOptions {
            host: String::from_str(host),
            port,
            auth_token: None,
            use_messagepack: true,
            json_fallback: true,
        }
    }

    /// The same options with `token` as the credential.
    pub fn with_auth(self, token: &str) -> (opts: Self)
        ensures
            opts.auth_token matches Some(t) && t@ == token@,
            opts.host == self.host,
            opts.port == self.port,
            opts.use_messagepack == self.use_messagepack,
            opts.json_fallback == self.json_fallback,
    {
        ConnectOptions {
            host: self.host,
            port: self.port,
            auth_token: Some(String::from_str(token)),
            use_messagepack: self.use_messagepack,
            json_fallback: self.json_fallback,
        }
    }

    /// The encodings that these options offer.
    pub open spec fn spec_flags(&self) -> ProtocolFlags {
        ProtocolFlags { messagepack: self.use_messagepack, json_fallback: self.json_fallback }
    }

    /// The encodings that these options offer.
    #[verifier::when_used_as_spec(spec_flags)]
    pub fn flags(&self) -> (flags: ProtocolFlags)
        ensures
            flags == self.spec_flags(),
    {
        ProtocolFlags { messagepack: self.use_messagepack, json_fallback: self.json_fallback }
    }

    /// The address to connect to: the host, a colon, the port.
    pub fn address(&self) -> (addr: String)
        ensures
            addr@ == address_chars(self.host@, self.port),
    {
        address_string(self.host.as_str(), self.port)
    }
}

/// What a response means to the caller that awaited it: the message
/// itself, unless the server reports an error, which is surfaced as a
/// `Server` error with the server's text.
pub fn into_result(message: ServerMessage) -> (r: Result<ServerMessage, Error>)
    ensures
        message matches ServerMessage::Error { error, .. } ==> (r matches Err(Error::Server(why))
            && why@ == error@),
        !(message is Error) ==> r == Ok::<ServerMessage, Error>(message),
{
    match message {
        ServerMessage::Error { id: _, error } => Err(Error::Server(error)),
        other => Ok(other),
    }
}

/// The error for a response of a kind that the request does not call for.
fn unexpected() -> (e: Error)
    ensures
        e matches Error::Protocol(why) && why@ == "Unexpected response"@,
{
    Error::Protocol(String::from_str("Unexpected response"))
}

/// Reads the response to a ping: `Pong` is success. An `Error` is a
/// `Server` error with its text, any other message a `Protocol` error.
pub fn expect_pong(message: ServerMessage) -> (r: Result<(), Error>)
    ensures
        message is Pong ==> r is Ok,
        message matches ServerMessage::Error { error, .. } ==> (r matches Err(Error::Server(why))
            && why@ == error@),
        !(message is Pong) && !(message is Error) ==> (r matches Err(Error::Protocol(why))
            && why@ == "Unexpected response"@),
{
    match into_result(message) {
        Ok(ServerMessage::Pong { .. }) => Ok(()),
        Ok(_) => Err(unexpected()),
        Err(e) => Err(e),
    }
}

/// Reads the response that carries data: a query, an insert, an update, a
/// delete or a listing of the collections. `Result` gives its data. An
/// `Error` is a `Server` error with its text, any other message a
/// `Protocol` error.
pub fn expect_data(message: ServerMessage) -> (r: Result<serde_json::Value, Error>)
    ensures
        message matches ServerMessage::Result { data, .. } ==> r == Ok::<
            serde_json::Value,
            Error,
        >(data),
        message matches ServerMessage::Error { error, .. } ==> (r matches Err(Error::Server(why))
            && why@ == error@),
        !(message is Result) && !(message is Error) ==> (r matches Err(Error::Protocol(why))
            && why@ == "Unexpected response"@),
{
    match into_result(message) {
        Ok(ServerMessage::Result { id: _, data }) => Ok(data),
        Ok(_) => Err(unexpected()),
        Err(e) => Err(e),
    }
}

/// Reads the response to a subscribe request: `Subscribed` gives the
/// identifier under which the changes will come. An `Error` is a `Server`
/// error with its text, any other message a `Protocol` error.
pub fn expect_subscribed(message: ServerMessage) -> (r: Result<String, Error>)
    ensures
        message matches ServerMessage::Subscribed { id } ==> r == Ok::<String, Error>(id),
        message matches ServerMessage::Error { error, .. } ==> (r matches Err(Error::Server(why))
            && why@ == error@),
        !(message is Subscribed) && !(message is Error) ==> (r matches Err(Error::Protocol(why))
            && why@ == "Unexpected response"@),
{
    match into_result(message) {
        Ok(ServerMessage::Subscribed { id }) => Ok(id),
        Ok(_) => Err(unexpected()),
        Err(e) => Err(e),
    }
}

/// Reads the response to an unsubscribe request: `Unsubscribed` is
/// success. An `Error` is a `Server` error with its text, any other message
/// a `Protocol` error.
pub fn expect_unsubscribed(message: ServerMessage) -> (r: Result<(), Error>)
    ensures
        message is Unsubscribed ==> r is Ok,
        message matches ServerMessage::Error { error, .. } ==> (r matches Err(Error::Server(why))
            && why@ == error@),
        !(message is Unsubscribed) && !(message is Error) ==> (r matches Err(Error::Protocol(why))
            && why@ == "Unexpected response"@),
{
    match into_result(message) {
        Ok(ServerMessage::Unsubscribed { .. }) => Ok(()),
        Ok(_) => Err(unexpected()),
        Err(e) => Err(e),
    }
}

/// The position of the last colon of `s` before `upto`, or -1 where there
/// is none.
pub open spec fn last_colon(s: Seq<u8>, upto: int) -> int
    decreases upto,
{
    if upto <= 0 || upto > s.len() {
        -1
    } else if s[upto - 1] == 58 {
        upto - 1
    } else {
        last_colon(s, upto - 1)
    }
}

/// The port that `text` names: a decimal number up to 65535, with or
/// without a plus sign before it.
pub open spec fn port_of(text: Seq<u8>) -> Option<u16> {
    if text.len() > 0 && text[0] != 45 {
        match signed_value(text) {
            Some(v) => if v <= 65535 {
                Some(v as u16)
            } else {
                None
            },
            None => None,
        }
    } else {
        None
    }
}

impl ConnectOptions {
    /// Reads an address of the form `host:port`. The host is everything
    /// before the last colon. The options are those of `new`. `None` where
    /// the address holds no colon or names no port.
    pub fn parse(address: &str) -> (r: Option<Self>)
        ensures
            ({
                let bytes = encode_utf8(address@);
                let at = last_colon(bytes, bytes.len() as int);
                let port = port_of(bytes.subrange(at + 1, bytes.len() as int));
                match r {
                    Some(opts) => {
                        &&& at >= 0
                        &&& encode_utf8(opts.host@) == bytes.subrange(0, at)
                        &&& port == Some(opts.port)
                        &&& opts.auth_token is None
                        &&& opts.use_messagepack
                        &&& opts.json_fallback
                    },
                    None => at < 0 || port is None,
                }
            }),
    {
        broadcast use vstd::utf8::encode_utf8_valid_utf8;

        let bytes = address.as_bytes();
        let mut at: usize = bytes.len();
        while at > 0 && bytes[at - 1] != 58
            invariant
                at <= bytes.len(),
                last_colon(bytes@, bytes.len() as int) == last_colon(bytes@, at as int),
            decreases at,
        {
            at -= 1;
        }
        if at == 0 {
            return None;
        }
        let colon: usize = at - 1;
        let digits = vstd::slice::slice_subrange(bytes, at, bytes.len());
        if digits.len() == 0 || digits[0] == 45 {
            return None;
        }
        let port: u16 = match parse_decimal(digits) {
            Some(v) => if 0 <= v && v <= 65535 {
                v as u16
            } else {
                return None;
            },
            None => {
                return None;
            },
        };
        proof {
            vstd::utf8::is_char_boundary_iff_not_is_continuation_byte(bytes@, colon as int);
        }
        let (host, _) = address.split_at(colon);
        Some(
            ConnectOptions {
                host: host.to_owned(),
                port,
                auth_token: None,
                use_messagepack: true,
                json_fallback: true,
            },
        )
    }
}

} // verus!
