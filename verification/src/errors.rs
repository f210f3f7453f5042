use vstd::prelude::*;

verus! {

/// Failure taxonomy of the streaming engine. Every failure is terminal for
/// the invocation that met it: nothing is retried anywhere in this library.
#[derive(Clone, Copy, PartialEq, Eq, Structural, Debug)]
pub enum WsError {
    /// Any handshake-stage failure (name resolution, TCP connect, TLS
    /// negotiation, HTTP upgrade), collapsed into one opaque outcome.
    ConnectFailure,
    /// The URL parsed, but its scheme is neither `ws` nor `wss`.
    UnsupportedScheme,
    /// The URL string could not be parsed at all.
    MalformedUrl,
    /// Outbound payload of a kind other than text or binary bytes.
    MalformedInput,
    /// The shared-connection lock was found poisoned by a panicked holder.
    LockFailure,
    /// Protocol-level send error during the one-shot outbound send.
    SendFailure,
    /// Cancellation was observed while a read was polling.
    ReadInterrupted,
}

impl WsError {
    /// The fixed description of each failure.
    pub open spec fn describe_spec(&self) -> Seq<char> {
        match self {
            WsError::ConnectFailure => "failed to connect to the WebSocket"@,
            WsError::UnsupportedScheme => "URL scheme must be ws or wss"@,
            WsError::MalformedUrl => "incomplete or incorrect URL"@,
            WsError::MalformedInput => "input must be string or binary"@,
            WsError::LockFailure => "failed to lock the WebSocket"@,
            WsError::SendFailure => "failed to send the WebSocket message"@,
            WsError::ReadInterrupted => "read interrupted"@,
        }
    }

    /// A short, fixed description of the failure, for the host to display.
    pub fn describe(&self) -> (r: String)
        ensures
            r@ == self.describe_spec(),
    {
        match self {
            WsError::ConnectFailure => "failed to connect to the WebSocket".to_owned(),
            WsError::UnsupportedScheme => "URL scheme must be ws or wss".to_owned(),
            WsError::MalformedUrl => "incomplete or incorrect URL".to_owned(),
            WsError::MalformedInput => "input must be string or binary".to_owned(),
            WsError::LockFailure => "failed to lock the WebSocket".to_owned(),
            WsError::SendFailure => "failed to send the WebSocket message".to_owned(),
            WsError::ReadInterrupted => "read interrupted".to_owned(),
        }
    }
}

} // verus!
