//! The one exchange that opens a connection.
//!
//! The client sends the magic bytes, its version, the encodings it offers
//! and its credential. The server answers with the magic bytes, its
//! version, a status, the encoding it chose and the identifier of the
//! session.

use crate::client::ConnectOptions;
use crate::error::Error;
use crate::protocol::{
    uuid_bytes, uuid_from_bytes, Encoding, HandshakeStatus, ProtocolFlags, MAGIC,
    PROTOCOL_VERSION,
};
use vstd::prelude::*;
use vstd::utf8::encode_utf8;

verus! {

/// The length of the answer to a handshake that succeeded.
pub const HANDSHAKE_RESPONSE_LEN: usize = 23;

/// The longest credential that a handshake can carry, in bytes.
pub const MAX_CREDENTIAL_LEN: usize = 65535;

/// What a handshake that succeeded establishes.
#[derive(Debug, Clone)]
pub struct Session {
    pub encoding: Encoding,
    pub session_id: uuid::Uuid,
}

/// The two bytes of `n`, most significant first.
pub open spec fn be16(n: nat) -> Seq<u8> {
    seq![(n / 256 % 256) as u8, (n % 256) as u8]
}

/// The bytes of the credential that `opts` holds; none where it holds none.
pub open spec fn credential_bytes(opts: ConnectOptions) -> Seq<u8> {
    match opts.auth_token {
        Some(token) => encode_utf8(token@),
        None => Seq::empty(),
    }
}

/// The handshake request: magic, version, flags, the length of the
/// credential in two bytes, the credential.
pub open spec fn handshake_request(flags: ProtocolFlags, credential: Seq<u8>) -> Seq<u8> {
    MAGIC@ + seq![PROTOCOL_VERSION, flags.byte()] + be16(credential.len()) + credential
}

/// Writes the handshake request for `opts`. A credential of more than
/// 65535 bytes has no place in it and is refused.
pub fn encode_handshake(opts: &ConnectOptions) -> (r: Result<Vec<u8>, Error>)
    ensures
        credential_bytes(*opts).len() <= MAX_CREDENTIAL_LEN ==> (r matches Ok(bytes) && bytes@
            == handshake_request(opts.flags(), credential_bytes(*opts))),
        credential_bytes(*opts).len() > MAX_CREDENTIAL_LEN ==> (r matches Err(
            Error::Handshake(why),
        ) && why@ == "Credential too long"@),
{
    let mut bytes: Vec<u8> = Vec::new();
    bytes.push(MAGIC[0]);
    bytes.push(MAGIC[1]);
    bytes.push(MAGIC[2]);
    bytes.push(MAGIC[3]);
    bytes.push(PROTOCOL_VERSION);
    bytes.push(u8::from(opts.flags()));
    match &opts.auth_token {
        Some(token) => {
            let credential = token.as_str().as_bytes();
            if credential.len() > MAX_CREDENTIAL_LEN {
                return Err(Error::Handshake(String::from_str("Credential too long")));
            }
            let n: usize = credential.len();
            bytes.push((n / 256) as u8);
            bytes.push((n % 256) as u8);
            let ghost head = bytes@;
            let mut i: usize = 0;
            while i < credential.len()
                invariant
                    i <= credential.len(),
                    bytes@ == head + credential@.take(i as int),
                decreases credential.len() - i,
            {
                bytes.push(credential[i]);
                i += 1;
                assert(bytes@ =~= head + credential@.take(i as int));
            }
            assert(credential@.take(i as int) =~= credential@);
            assert(bytes@ =~= handshake_request(opts.flags(), credential@));
        },
        None => {
            bytes.push(0);
            bytes.push(0);
            assert(bytes@ =~= handshake_request(opts.flags(), Seq::empty()));
        },
    }
    Ok(bytes)
}

/// What the answer to a handshake says.
pub enum HandshakeReply {
    /// The server accepted: the encoding it chose and the sixteen bytes of
    /// the session identifier.
    Accepted(Encoding, Seq<u8>),
    /// The server speaks the version given, which is not the client's.
    VersionMismatch(u8),
    /// The server refused the credential.
    AuthFailed,
    /// The answer is cut short or too long, does not start with the magic
    /// bytes, holds an unknown status, or chooses an encoding that was not
    /// offered; the text says which.
    Malformed(Seq<char>),
}

/// Reads the answer to a handshake in which `offered` was sent.
///
/// The first six bytes (magic, version, status) decide whether the server
/// accepted. Only an answer that accepts must be whole: 23 bytes, with an
/// encoding that the client offered.
pub open spec fn handshake_reply(s: Seq<u8>, offered: ProtocolFlags) -> HandshakeReply {
    if s.len() < 6 {
        HandshakeReply::Malformed("Response too short"@)
    } else if s.subrange(0, 4) != MAGIC@ {
        HandshakeReply::Malformed("Invalid magic"@)
    } else {
        match HandshakeStatus::of_code(s[5]) {
            None => HandshakeReply::Malformed("Unknown status"@),
            Some(status) => if status == HandshakeStatus::VersionMismatch || s[4]
                != PROTOCOL_VERSION {
                HandshakeReply::VersionMismatch(s[4])
            } else if status == HandshakeStatus::AuthFailed {
                HandshakeReply::AuthFailed
            } else if s.len() < HANDSHAKE_RESPONSE_LEN {
                HandshakeReply::Malformed("Response too short"@)
            } else if s.len() > HANDSHAKE_RESPONSE_LEN {
                HandshakeReply::Malformed("Response too long"@)
            } else {
                match Encoding::of_code(s[6]) {
                    Some(encoding) => if offered.offers(encoding) {
                        HandshakeReply::Accepted(encoding, s.subrange(7, 23))
                    } else {
                        HandshakeReply::Malformed("Encoding was not offered"@)
                    },
                    None => HandshakeReply::Malformed("Unknown encoding"@),
                }
            },
        }
    }
}

/// Whether the result `r` says what `reply` says.
pub open spec fn reply_matches(r: Result<Session, Error>, reply: HandshakeReply) -> bool {
    match reply {
        HandshakeReply::Accepted(encoding, id) => r matches Ok(session) && session.encoding
            == encoding && uuid_bytes(session.session_id) == id,
        HandshakeReply::VersionMismatch(version) => r matches Err(
            Error::VersionMismatch { server, client },
        ) && server == version && client == PROTOCOL_VERSION,
        HandshakeReply::AuthFailed => r matches Err(Error::AuthFailed),
        HandshakeReply::Malformed(why) => r matches Err(Error::Handshake(text)) && text@ == why,
    }
}

/// Reads the answer of the server to a handshake in which `offered` was
/// sent: the session where the server accepted, else the error that says
/// why not.
pub fn parse_handshake_response(response: &[u8], offered: ProtocolFlags) -> (r: Result<
    Session,
    Error,
>)
    ensures
        reply_matches(r, handshake_reply(response@, offered)),
{
    if response.len() < 6 {
        return Err(Error::Handshake(String::from_str("Response too short")));
    }
    if response[0] != MAGIC[0] || response[1] != MAGIC[1] || response[2] != MAGIC[2]
        || response[3] != MAGIC[3] {
        assert(response@.subrange(0, 4)[0] == response@[0]);
        assert(response@.subrange(0, 4)[1] == response@[1]);
        assert(response@.subrange(0, 4)[2] == response@[2]);
        assert(response@.subrange(0, 4)[3] == response@[3]);
        return Err(Error::Handshake(String::from_str("Invalid magic")));
    }
    assert(response@.subrange(0, 4) =~= MAGIC@);
    let version = response[4];
    let status = match HandshakeStatus::try_from(response[5]) {
        Ok(status) => status,
        Err(_) => {
            return Err(Error::Handshake(String::from_str("Unknown status")));
        },
    };
    if status == HandshakeStatus::VersionMismatch || version != PROTOCOL_VERSION {
        return Err(Error::VersionMismatch { server: version, client: PROTOCOL_VERSION });
    }
    if status == HandshakeStatus::AuthFailed {
        return Err(Error::AuthFailed);
    }
    if response.len() < HANDSHAKE_RESPONSE_LEN {
        return Err(Error::Handshake(String::from_str("Response too short")));
    }
    if response.len() > HANDSHAKE_RESPONSE_LEN {
        return Err(Error::Handshake(String::from_str("Response too long")));
    }
    let encoding = match Encoding::try_from(response[6]) {
        Ok(encoding) => encoding,
        Err(_) => {
            return Err(Error::Handshake(String::from_str("Unknown encoding")));
        },
    };
    if !offered.offers(encoding) {
        return Err(Error::Handshake(String::from_str("Encoding was not offered")));
    }
    let id: [u8; 16] = [
        response[7],
        response[8],
        response[9],
        response[10],
        response[11],
        response[12],
        response[13],
        response[14],
        response[15],
        response[16],
        response[17],
        response[18],
        response[19],
        response[20],
        response[21],
        response[22],
    ];
    assert(id@ =~= response@.subrange(7, 23));
    Ok(Session { encoding, session_id: uuid_from_bytes(id) })
}

/// The answer that a server writes: magic, its version, the status, the
/// encoding it chose, the identifier of the session.
pub open spec fn handshake_response(
    version: u8,
    status: HandshakeStatus,
    encoding: Encoding,
    id: Seq<u8>,
) -> Seq<u8> {
    MAGIC@ + seq![version, status.code(), encoding.code()] + id
}

/// Where the server answers with the client's version, the status of
/// success, an encoding that the client offered and a session identifier,
/// the handshake yields a session with that encoding and that identifier.
pub proof fn lemma_handshake_accepted(
    encoding: Encoding,
    id: Seq<u8>,
    offered: ProtocolFlags,
    r: Result<Session, Error>,
)
    requires
        id.len() == 16,
        offered.offers(encoding),
        reply_matches(
            r,
            handshake_reply(
                handshake_response(PROTOCOL_VERSION, HandshakeStatus::Success, encoding, id),
                offered,
            ),
        ),
    ensures
        r matches Ok(session) && session.encoding == encoding && uuid_bytes(session.session_id)
            == id,
{
    let s = handshake_response(PROTOCOL_VERSION, HandshakeStatus::Success, encoding, id);
    assert(s.subrange(0, 4) =~= MAGIC@);
    assert(s.subrange(7, 23) =~= id);
    assert(s[6] == encoding.code());
}

/// Where the server answers with the status of a version mismatch, or with
/// a version that is not the client's, the handshake fails with
/// `VersionMismatch`, which carries the server's version as the answer
/// gives it and the client's own.
pub proof fn lemma_handshake_version_mismatch(
    response: Seq<u8>,
    offered: ProtocolFlags,
    r: Result<Session, Error>,
)
    requires
        response.len() >= 6,
        response.subrange(0, 4) == MAGIC@,
        HandshakeStatus::of_code(response[5]) is Some,
        HandshakeStatus::of_code(response[5]) == Some(HandshakeStatus::VersionMismatch)
            || response[4] != PROTOCOL_VERSION,
        reply_matches(r, handshake_reply(response, offered)),
    ensures
        r matches Err(Error::VersionMismatch { server, client }) && server == response[4]
            && client == PROTOCOL_VERSION,
{
}

/// Where the server answers with the client's version and the status of a
/// refused credential, the handshake fails with `AuthFailed`.
pub proof fn lemma_handshake_auth_failed(
    response: Seq<u8>,
    offered: ProtocolFlags,
    r: Result<Session, Error>,
)
    requires
        response.len() >= 6,
        response.subrange(0, 4) == MAGIC@,
        response[4] == PROTOCOL_VERSION,
        response[5] == HandshakeStatus::AuthFailed.code(),
        reply_matches(r, handshake_reply(response, offered)),
    ensures
        r matches Err(Error::AuthFailed),
{
}

} // verus!
