//! The error type shared by the library.
use vstd::prelude::*;

verus! {

/// What can go wrong while talking to a server.
#[derive(Debug)]
pub enum MineRiderError {
    /// The socket failed; the text is the operating system's.
    Io(String),
    /// An operation ran out of time; the text names it.
    Timeout(String),
    /// The peer broke the protocol; the text says how.
    Protocol(String),
    /// The peer closed the connection.
    ConnectionClosed,
    /// The server kicked the client; the text is its reason.
    Disconnected(String),
}

impl MineRiderError {
    /// A protocol error with exactly this text.
    pub open spec fn is_protocol(self, text: Seq<char>) -> bool {
        self matches MineRiderError::Protocol(s) && s@ == text
    }

    /// A timeout with exactly this text.
    pub open spec fn is_timeout(self, text: Seq<char>) -> bool {
        self matches MineRiderError::Timeout(s) && s@ == text
    }

    /// A disconnect with exactly this reason.
    pub open spec fn is_disconnected(self, text: Seq<char>) -> bool {
        self matches MineRiderError::Disconnected(s) && s@ == text
    }
}

/// How a failure should be treated where reconnecting is enabled.
#[derive(Debug, Clone, Copy, PartialEq, Eq, Structural)]
pub enum RetryClass {
    /// A condition that can change between attempts.
    Transient,
    /// A decision of the other side.
    ServerRejected,
    /// Credentials that were refused or cannot be sent.
    AuthFailure,
    /// Something that retrying cannot change.
    ProtocolIncompatible,
}

/// Builds a protocol error from a fixed text.
pub fn protocol_error(text: &str) -> (e: MineRiderError)
    ensures
        e.is_protocol(text@),
{
    MineRiderError::Protocol(text.to_owned())
}

} // verus!
