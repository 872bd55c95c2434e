//! What the library itself finds wrong with a connection.
use vstd::prelude::*;

verus! {

/// The reasons for which the library gives a connection up.
#[derive(Clone, Copy, Debug, PartialEq, Eq, Structural)]
pub enum WsError {
    /// What came in is not an HTTP request.
    UnreadableRequest,
    /// A response lacks its code or its reason.
    UnwritableResponse,
    /// The connection closed before the client asked for a handshake.
    NoHandshake,
    /// The client asked for a handshake without a key.
    NoHandshakeKey,
    /// A frame came in that the reader has no use for.
    UnexpectedFrame,
}

/// What is said of an error.
pub open spec fn error_text(error: WsError) -> Seq<char> {
    match error {
        WsError::UnreadableRequest => "Could not parse HTTP request"@,
        WsError::UnwritableResponse => "Could not serialize HTTP response."@,
        WsError::NoHandshake => "Invalid WebSocket handshake: Expected HTTP frame."@,
        WsError::NoHandshakeKey =>
            "Invalid WebSocket handshake: No Sec-WebSocket-Key header found."@,
        WsError::UnexpectedFrame => "Expected Binary or Text WS frame."@,
    }
}

impl WsError {
    /// The error in words.
    pub fn message(&self) -> (message: &'static str)
        ensures
            message@ == error_text(*self),
    {
        match self {
            WsError::UnreadableRequest => "Could not parse HTTP request",
            WsError::UnwritableResponse => "Could not serialize HTTP response.",
            WsError::NoHandshake => "Invalid WebSocket handshake: Expected HTTP frame.",
            WsError::NoHandshakeKey =>
                "Invalid WebSocket handshake: No Sec-WebSocket-Key header found.",
            WsError::UnexpectedFrame => "Expected Binary or Text WS frame.",
        }
    }
}

} // verus!
