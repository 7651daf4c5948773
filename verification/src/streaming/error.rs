//! The Streaming Engine's single error type.

use vstd::prelude::*;

use crate::text::{decimal, push_decimal, push_str, string_from_chars};

verus! {

/// Errors that can occur while operating the Streaming Engine.
#[derive(Debug, Clone, PartialEq, Eq)]
pub enum StreamingError {
    /// A queue rejected a packet because it was already at capacity.
    QueueOverflow { capacity: usize },
    /// The queue's channel has been closed.
    QueueClosed,
    /// A packet's payload exceeded the configured maximum size.
    PacketTooLarge { max: usize, actual: usize },
    /// The operation requires the engine not to be stopped.
    EngineNotRunning,
    /// `start` was called on an engine that is already running.
    EngineAlreadyRunning,
    /// Forwarding to the Transport Layer failed after all retries.
    SendFailed(String),
    /// A blocking operation exceeded the configured timeout.
    OperationTimedOut,
    /// The requested lifecycle transition is invalid in the current state.
    InvalidState(String),
    /// The Transport Layer's receiving half has been dropped.
    TransportUnavailable,
}

impl StreamingError {
    /// The human-readable message of the error.
    pub open spec fn message(&self) -> Seq<char> {
        match self {
            StreamingError::QueueOverflow { capacity } => "queue overflow: capacity of "@
                + decimal(*capacity as nat) + " packets exceeded"@,
            StreamingError::QueueClosed => "queue channel is closed"@,
            StreamingError::PacketTooLarge { max, actual } => "packet too large: max allowed "@
                + decimal(*max as nat) + " bytes, got "@ + decimal(*actual as nat) + " bytes"@,
            StreamingError::EngineNotRunning => "operation requires the streaming engine to be running"@,
            StreamingError::EngineAlreadyRunning => "streaming engine is already running"@,
            StreamingError::SendFailed(reason) => "failed to send packet to transport layer: "@
                + reason@,
            StreamingError::OperationTimedOut => "operation timed out"@,
            StreamingError::InvalidState(reason) => "invalid engine state transition: "@ + reason@,
            StreamingError::TransportUnavailable => "transport layer sink is unavailable"@,
        }
    }

    /// Renders the error's message.
    pub fn to_string(&self) -> (r: String)
        ensures
            r@ == self.message(),
    {
        let mut out: Vec<char> = Vec::new();
        match self {
            StreamingError::QueueOverflow { capacity } => {
                push_str(&mut out, "queue overflow: capacity of ");
                push_decimal(&mut out, *capacity as u128);
                push_str(&mut out, " packets exceeded");
            },
            StreamingError::QueueClosed => push_str(&mut out, "queue channel is closed"),
            StreamingError::PacketTooLarge { max, actual } => {
                push_str(&mut out, "packet too large: max allowed ");
                push_decimal(&mut out, *max as u128);
                push_str(&mut out, " bytes, got ");
                push_decimal(&mut out, *actual as u128);
                push_str(&mut out, " bytes");
            },
            StreamingError::EngineNotRunning => push_str(
                &mut out,
                "operation requires the streaming engine to be running",
            ),
            StreamingError::EngineAlreadyRunning => push_str(
                &mut out,
                "streaming engine is already running",
            ),
            StreamingError::SendFailed(reason) => {
                push_str(&mut out, "failed to send packet to transport layer: ");
                push_str(&mut out, reason.as_str());
            },
            StreamingError::OperationTimedOut => push_str(&mut out, "operation timed out"),
            StreamingError::InvalidState(reason) => {
                push_str(&mut out, "invalid engine state transition: ");
                push_str(&mut out, reason.as_str());
            },
            StreamingError::TransportUnavailable => push_str(
                &mut out,
                "transport layer sink is unavailable",
            ),
        }
        assert(out@ =~= self.message());
        string_from_chars(&out)
    }
}

} // verus!
