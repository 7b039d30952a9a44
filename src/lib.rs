//! Message values, their wire codec, message envelopes, and the dispatch
//! engine that turns a callback-driven transport into a pull iterator, for a
//! D-Bus style message bus.
pub mod codec;
pub mod connection;
pub mod item;
pub mod message;
pub mod wire;

pub use codec::{DecodeError, EncodeError};
pub use connection::{
    error_result, release_name_reply, request_name_reply, BusType, Connection, ConnectionItem,
    ConnectionItems, HandlerResult, NameFlag, Poll, ReleaseNameReply, RequestNameReply,
};
pub use item::{Item, MessageItem};
pub use message::{DBusError, Error, Message, MessageType};
pub use wire::Element;
