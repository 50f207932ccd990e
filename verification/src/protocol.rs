//! The values that travel between client and server.

use vstd::prelude::*;

verus! {

/// The four bytes that open every handshake: `SQRL`.
pub const MAGIC: &'static [u8; 4] = &[0x53, 0x51, 0x52, 0x4C];

/// The version of the protocol that this client speaks.
pub const PROTOCOL_VERSION: u8 = 0x01;

/// The largest payload that a frame may carry: 16 MiB.
pub const MAX_MESSAGE_SIZE: u32 = 16 * 1024 * 1024;

/// How the server answers a handshake.
#[derive(Debug, Clone, Copy, PartialEq, Eq, Structural)]
pub enum HandshakeStatus {
    Success,
    VersionMismatch,
    AuthFailed,
}

impl HandshakeStatus {
    /// The byte that stands for the status on the wire.
    pub open spec fn spec_code(self) -> u8 {
        match self {
            HandshakeStatus::Success => 0x00,
            HandshakeStatus::VersionMismatch => 0x01,
            HandshakeStatus::AuthFailed => 0x02,
        }
    }

    /// The status that a byte stands for, where it stands for one.
    pub open spec fn of_code(v: u8) -> Option<HandshakeStatus> {
        if v == 0x00 {
            Some(HandshakeStatus::Success)
        } else if v == 0x01 {
            Some(HandshakeStatus::VersionMismatch)
        } else if v == 0x02 {
            Some(HandshakeStatus::AuthFailed)
        } else {
            None
        }
    }

    /// The byte that stands for the status on the wire.
    #[verifier::when_used_as_spec(spec_code)]
    pub fn code(self) -> (v: u8)
        ensures
            v == self.spec_code(),
    {
        match self {
            HandshakeStatus::Success => 0x00,
            HandshakeStatus::VersionMismatch => 0x01,
            HandshakeStatus::AuthFailed => 0x02,
        }
    }
}

impl TryFrom<u8> for HandshakeStatus {
    type Error = ();

    fn try_from(v: u8) -> (r: Result<Self, ()>) {
        match v {
            0x00 => Ok(HandshakeStatus::Success),
            0x01 => Ok(HandshakeStatus::VersionMismatch),
            0x02 => Ok(HandshakeStatus::AuthFailed),
            _ => Err(()),
        }
    }
}

impl vstd::std_specs::convert::TryFromSpecImpl<u8> for HandshakeStatus {
    open spec fn obeys_try_from_spec() -> bool {
        true
    }

    open spec fn try_from_spec(v: u8) -> Result<Self, ()> {
        match HandshakeStatus::of_code(v) {
            Some(status) => Ok(status),
            None => Err(()),
        }
    }
}

/// What a message is to the peer that receives it.
#[derive(Debug, Clone, Copy, PartialEq, Eq, Structural)]
pub enum MessageType {
    Request,
    Response,
    Notification,
}

impl MessageType {
    /// The byte that stands for the kind on the wire.
    pub open spec fn spec_code(self) -> u8 {
        match self {
            MessageType::Request => 0x01,
            MessageType::Response => 0x02,
            MessageType::Notification => 0x03,
        }
    }

    /// The kind that a byte stands for, where it stands for one.
    pub open spec fn of_code(v: u8) -> Option<MessageType> {
        if v == 0x01 {
            Some(MessageType::Request)
        } else if v == 0x02 {
            Some(MessageType::Response)
        } else if v == 0x03 {
            Some(MessageType::Notification)
        } else {
            None
        }
    }

    /// The byte that stands for the kind on the wire.
    #[verifier::when_used_as_spec(spec_code)]
    pub fn code(self) -> (v: u8)
        ensures
            v == self.spec_code(),
    {
        match self {
            MessageType::Request => 0x01,
            MessageType::Response => 0x02,
            MessageType::Notification => 0x03,
        }
    }
}

impl TryFrom<u8> for MessageType {
    type Error = ();

    fn try_from(v: u8) -> (r: Result<Self, ()>) {
        match v {
            0x01 => Ok(MessageType::Request),
            0x02 => Ok(MessageType::Response),
            0x03 => Ok(MessageType::Notification),
            _ => Err(()),
        }
    }
}

impl vstd::std_specs::convert::TryFromSpecImpl<u8> for MessageType {
    open spec fn obeys_try_from_spec() -> bool {
        true
    }

    open spec fn try_from_spec(v: u8) -> Result<Self, ()> {
        match MessageType::of_code(v) {
            Some(kind) => Ok(kind),
            None => Err(()),
        }
    }
}

/// How the payload of a frame is written.
#[derive(Debug, Clone, Copy, PartialEq, Eq, Structural)]
pub enum Encoding {
    MessagePack,
    Json,
}

impl Encoding {
    /// The byte that stands for the encoding on the wire.
    pub open spec fn spec_code(self) -> u8 {
        match self {
            Encoding::MessagePack => 0x01,
            Encoding::Json => 0x02,
        }
    }

    /// The encoding that a byte stands for, where it stands for one.
    pub open spec fn of_code(v: u8) -> Option<Encoding> {
        if v == 0x01 {
            Some(Encoding::MessagePack)
        } else if v == 0x02 {
            Some(Encoding::Json)
        } else {
            None
        }
    }

    /// The byte that stands for the encoding on the wire.
    #[verifier::when_used_as_spec(spec_code)]
    pub fn code(self) -> (v: u8)
        ensures
            v == self.spec_code(),
    {
        match self {
            Encoding::MessagePack => 0x01,
            Encoding::Json => 0x02,
        }
    }
}

impl Default for Encoding {
    fn default() -> (r: Self)
        ensures
            r == Encoding::MessagePack,
    {
        Encoding::MessagePack
    }
}

impl TryFrom<u8> for Encoding {
    type Error = ();

    fn try_from(v: u8) -> (r: Result<Self, ()>) {
        match v {
            0x01 => Ok(Encoding::MessagePack),
            0x02 => Ok(Encoding::Json),
            _ => Err(()),
        }
    }
}

impl vstd::std_specs::convert::TryFromSpecImpl<u8> for Encoding {
    open spec fn obeys_try_from_spec() -> bool {
        true
    }

    open spec fn try_from_spec(v: u8) -> Result<Self, ()> {
        match Encoding::of_code(v) {
            Some(encoding) => Ok(encoding),
            None => Err(()),
        }
    }
}

/// The encodings that a client offers in its handshake.
#[derive(Debug, Clone, Copy, PartialEq, Eq, Structural)]
pub struct ProtocolFlags {
    pub messagepack: bool,
    pub json_fallback: bool,
}

impl ProtocolFlags {
    /// The flags as a byte: bit 0 for MessagePack, bit 1 for the JSON fallback.
    pub open spec fn byte(self) -> u8 {
        if self.messagepack && self.json_fallback {
            0x03
        } else if self.json_fallback {
            0x02
        } else if self.messagepack {
            0x01
        } else {
            0x00
        }
    }

    /// The flags that a byte holds; its other bits are ignored.
    pub open spec fn of_byte(byte: u8) -> ProtocolFlags {
        ProtocolFlags { messagepack: byte & 0x01 != 0, json_fallback: byte & 0x02 != 0 }
    }

    /// Whether the flags offer `encoding`.
    pub open spec fn spec_offers(self, encoding: Encoding) -> bool {
        match encoding {
            Encoding::MessagePack => self.messagepack,
            Encoding::Json => self.json_fallback,
        }
    }

    /// Whether the flags offer `encoding`.
    #[verifier::when_used_as_spec(spec_offers)]
    pub fn offers(self, encoding: Encoding) -> (r: bool)
        ensures
            r == self.spec_offers(encoding),
    {
        match encoding {
            Encoding::MessagePack => self.messagepack,
            Encoding::Json => self.json_fallback,
        }
    }
}

impl Default for ProtocolFlags {
    fn default() -> (r: Self)
        ensures
            r == (ProtocolFlags { messagepack: false, json_fallback: false }),
    {
        ProtocolFlags { messagepack: false, json_fallback: false }
    }
}

impl From<u8> for ProtocolFlags {
    fn from(byte: u8) -> (r: Self) {
        ProtocolFlags { messagepack: byte & 0x01 != 0, json_fallback: byte & 0x02 != 0 }
    }
}

impl vstd::std_specs::convert::FromSpecImpl<u8> for ProtocolFlags {
    open spec fn obeys_from_spec() -> bool {
        true
    }

    open spec fn from_spec(byte: u8) -> Self {
        ProtocolFlags::of_byte(byte)
    }
}

impl From<ProtocolFlags> for u8 {
    fn from(flags: ProtocolFlags) -> (r: u8) {
        let mut byte = 0u8;
        if flags.messagepack {
            byte |= 0x01;
        }
        if flags.json_fallback {
            byte |= 0x02;
        }
        assert(0u8 | 0x01 == 0x01) by (bit_vector);
        assert(0u8 | 0x02 == 0x02) by (bit_vector);
        assert(0x01u8 | 0x02 == 0x03) by (bit_vector);
        byte
    }
}

impl vstd::std_specs::convert::FromSpecImpl<ProtocolFlags> for u8 {
    open spec fn obeys_from_spec() -> bool {
        true
    }

    open spec fn from_spec(flags: ProtocolFlags) -> u8 {
        flags.byte()
    }
}

/// Reading the byte of a set of flags gives the flags back.
pub proof fn lemma_flags_round_trip(flags: ProtocolFlags)
    ensures
        ProtocolFlags::of_byte(flags.byte()) == flags,
{
    assert(0x00u8 & 0x01 == 0 && 0x00u8 & 0x02 == 0) by (bit_vector);
    assert(0x01u8 & 0x01 != 0 && 0x01u8 & 0x02 == 0) by (bit_vector);
    assert(0x02u8 & 0x01 == 0 && 0x02u8 & 0x02 != 0) by (bit_vector);
    assert(0x03u8 & 0x01 != 0 && 0x03u8 & 0x02 != 0) by (bit_vector);
}

/// The byte of the flags that a byte holds is that byte's two lowest bits.
pub proof fn lemma_flags_of_byte(byte: u8)
    ensures
        ProtocolFlags::of_byte(byte).byte() == byte & 0x03,
{
    assert(byte & 0x03 == (if byte & 0x01 != 0 && byte & 0x02 != 0 {
        0x03u8
    } else if byte & 0x02 != 0 {
        0x02u8
    } else if byte & 0x01 != 0 {
        0x01u8
    } else {
        0x00u8
    })) by (bit_vector);
}

#[verifier::external_type_specification]
#[verifier::external_body]
pub struct ExUuid(uuid::Uuid);

/// The sixteen bytes of an identifier.
pub uninterp spec fn uuid_bytes(id: uuid::Uuid) -> Seq<u8>;

/// `Uuid::from_bytes`: the identifier made of the sixteen bytes given.
#[verifier::external_body]
pub(crate) fn uuid_from_bytes(bytes: [u8; 16]) -> (id: uuid::Uuid)
    ensures
        uuid_bytes(id) == bytes@,
{
    uuid::Uuid::from_bytes(bytes)
}

/// `Uuid::clone`: the same sixteen bytes.
pub assume_specification[ <uuid::Uuid as Clone>::clone ](id: &uuid::Uuid) -> (copy: uuid::Uuid)
    ensures
        uuid_bytes(copy) == uuid_bytes(*id),
;

/// A document as the server holds it. The client never changes one.
#[derive(Debug, Clone)]
pub struct Document {
    pub id: uuid::Uuid,
    pub collection: String,
    pub data: serde_json::Value,
    pub created_at: String,
    pub updated_at: String,
}

/// One change that a subscription observes.
#[derive(Debug, Clone)]
#[allow(inconsistent_fields)]
pub enum ChangeEvent {
    Initial { document: Document },
    Insert { new: Document },
    Update { old: serde_json::Value, new: Document },
    Delete { old: Document },
}

/// A request. Each carries the identifier by which its response is found.
#[derive(Debug, Clone)]
pub enum ClientMessage {
    Query { id: String, query: String },
    Subscribe { id: String, query: String },
    Unsubscribe { id: String },
    Insert { id: String, collection: String, data: serde_json::Value },
    Update { id: String, collection: String, document_id: uuid::Uuid, data: serde_json::Value },
    Delete { id: String, collection: String, document_id: uuid::Uuid },
    ListCollections { id: String },
    Ping { id: String },
}

/// A message from the server. A `Change` carries the identifier of its
/// subscription, every other one that of the request it answers.
#[derive(Debug, Clone)]
pub enum ServerMessage {
    Result { id: String, data: serde_json::Value },
    Change { id: String, change: ChangeEvent },
    Subscribed { id: String },
    Unsubscribed { id: String },
    Error { id: String, error: String },
    Pong { id: String },
}

impl ClientMessage {
    /// The identifier that the request carries.
    pub open spec fn spec_id(&self) -> &String {
        match self {
            ClientMessage::Query { id, .. } => id,
            ClientMessage::Subscribe { id, .. } => id,
            ClientMessage::Unsubscribe { id } => id,
            ClientMessage::Insert { id, .. } => id,
            ClientMessage::Update { id, .. } => id,
            ClientMessage::Delete { id, .. } => id,
            ClientMessage::ListCollections { id } => id,
            ClientMessage::Ping { id } => id,
        }
    }

    /// The identifier that the request carries.
    #[verifier::when_used_as_spec(spec_id)]
    pub fn id(&self) -> (r: &String)
        ensures
            r == self.spec_id(),
    {
        match self {
            ClientMessage::Query { id, .. } => id,
            ClientMessage::Subscribe { id, .. } => id,
            ClientMessage::Unsubscribe { id } => id,
            ClientMessage::Insert { id, .. } => id,
            ClientMessage::Update { id, .. } => id,
            ClientMessage::Delete { id, .. } => id,
            ClientMessage::ListCollections { id } => id,
            ClientMessage::Ping { id } => id,
        }
    }
}

impl ServerMessage {
    /// The identifier that the message carries.
    pub open spec fn spec_id(&self) -> &String {
        match self {
            ServerMessage::Result { id, .. } => id,
            ServerMessage::Change { id, .. } => id,
            ServerMessage::Subscribed { id } => id,
            ServerMessage::Unsubscribed { id } => id,
            ServerMessage::Error { id, .. } => id,
            ServerMessage::Pong { id } => id,
        }
    }

    /// The identifier that the message carries.
    #[verifier::when_used_as_spec(spec_id)]
    pub fn id(&self) -> (r: &String)
        ensures
            r == self.spec_id(),
    {
        match self {
            ServerMessage::Result { id, .. } => id,
            ServerMessage::Change { id, .. } => id,
            ServerMessage::Subscribed { id } => id,
            ServerMessage::Unsubscribed { id } => id,
            ServerMessage::Error { id, .. } => id,
            ServerMessage::Pong { id } => id,
        }
    }

    /// The kind of the message: a `Change` is a notification, every other
    /// one the response to a request.
    pub fn message_type(&self) -> (kind: MessageType)
        ensures
            kind == (if self is Change {
                MessageType::Notification
            } else {
                MessageType::Response
            }),
    {
        match self {
            ServerMessage::Change { .. } => MessageType::Notification,
            _ => MessageType::Response,
        }
    }
}

} // verus!
