//! A WebSocket server protocol: the opening handshake over HTTP/1.1, the frames of the wire, and
//! the transport that answers pings on its own. Everything that decides or computes stands here
//! as verified functions on plain values; sockets, futures and error values stay with the caller.

pub mod bytes;
pub mod codec;
pub mod error;
pub mod http;
pub mod outside;
pub mod proto;
pub mod transport;
pub mod wsframe;

pub use codec::{HttpCodec, WsCodec};
pub use error::WsError;
pub use proto::WsProto;
pub use transport::{WsPayload, WsTransport};
