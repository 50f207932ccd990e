//! A client library for SquirrelDB, a realtime document database reached
//! over one long-lived TCP connection.
//!
//! Everything here is logic on plain values: the handshake and the frames
//! of the wire protocol, the tables that match responses to requests and
//! change events to subscriptions, the query builder, and the codec of the
//! cache protocol. Sockets, tasks and the encoding of payloads live with
//! the caller.

pub mod cache;
pub mod client;
pub mod connection;
pub mod correlation;
pub mod error;
pub mod foreign;
pub mod frame;
pub mod handshake;
pub mod json;
pub mod protocol;
pub mod query;
pub mod subscription;
pub mod text;

pub use cache::{CacheError, CacheOptions, RespValue};
pub use client::ConnectOptions;
pub use connection::{Connection, Dispatch};
pub use error::Error;
pub use protocol::{
    ChangeEvent, ClientMessage, Document, Encoding, HandshakeStatus, MessageType, ProtocolFlags,
    ServerMessage, MAGIC, MAX_MESSAGE_SIZE, PROTOCOL_VERSION,
};
pub use query::{and, field, not, or, table, Field, Filter, QueryBuilder, SortDir, SortSpec};
pub use subscription::{Delivery, Subscription};
