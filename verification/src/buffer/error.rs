//! The Buffer Layer's single error type.

use vstd::prelude::*;

use crate::text::{decimal, push_decimal, push_str, string_from_chars};

verus! {

/// Errors that can occur while operating the Buffer Layer.
#[derive(Debug, Clone, PartialEq, Eq)]
pub enum BufferError {
    /// The buffer is at capacity and no room could be reclaimed.
    BufferFull { capacity: usize },
    /// An operation needing a buffered packet found the buffer empty.
    BufferEmpty,
    /// A packet with this sequence number is already buffered, or was
    /// delivered and is still remembered.
    DuplicatePacket { sequence_number: u64 },
    /// This sequence number lies behind the delivery watermark.
    AlreadyProcessed { sequence_number: u64 },
    /// A packet sat in the buffer longer than the maximum age.
    PacketTooOld { sequence_number: u64, max_age_ms: u64 },
    /// A configuration failed validation; the text says which invariant.
    InvalidConfiguration(String),
    /// A requested target delay lies outside the configured bounds.
    InvalidTargetDelay { requested_ms: u64, min_ms: u64, max_ms: u64 },
    /// A lower-level operation failed.
    OperationFailed(String),
}

impl BufferError {
    /// The human-readable message of the error.
    pub open spec fn message(&self) -> Seq<char> {
        match self {
            BufferError::BufferFull { capacity } => "buffer full: capacity of "@ + decimal(
                *capacity as nat,
            ) + " packets exceeded"@,
            BufferError::BufferEmpty => "buffer is empty"@,
            BufferError::DuplicatePacket { sequence_number } => "duplicate packet: sequence "@
                + decimal(*sequence_number as nat) + " is already buffered"@,
            BufferError::AlreadyProcessed { sequence_number } => "already processed: sequence "@
                + decimal(*sequence_number as nat) + " was already delivered or skipped"@,
            BufferError::PacketTooOld { sequence_number, max_age_ms } => "packet too old: sequence "@
                + decimal(*sequence_number as nat) + " exceeded max age of "@ + decimal(
                *max_age_ms as nat,
            ) + " ms"@,
            BufferError::InvalidConfiguration(reason) => "invalid buffer configuration: "@
                + reason@,
            BufferError::InvalidTargetDelay { requested_ms, min_ms, max_ms } =>
                "invalid target delay: "@ + decimal(*requested_ms as nat)
                + " ms is outside allowed range ["@ + decimal(*min_ms as nat) + ", "@ + decimal(
                *max_ms as nat,
            ) + "] ms"@,
            BufferError::OperationFailed(reason) => "buffer operation failed: "@ + reason@,
        }
    }

    /// Renders the error's message.
    pub fn to_string(&self) -> (r: String)
        ensures
            r@ == self.message(),
    {
        let mut out: Vec<char> = Vec::new();
        match self {
            BufferError::BufferFull { capacity } => {
                push_str(&mut out, "buffer full: capacity of ");
                push_decimal(&mut out, *capacity as u128);
                push_str(&mut out, " packets exceeded");
            },
            BufferError::BufferEmpty => push_str(&mut out, "buffer is empty"),
            BufferError::DuplicatePacket { sequence_number } => {
                push_str(&mut out, "duplicate packet: sequence ");
                push_decimal(&mut out, *sequence_number as u128);
                push_str(&mut out, " is already buffered");
            },
            BufferError::AlreadyProcessed { sequence_number } => {
                push_str(&mut out, "already processed: sequence ");
                push_decimal(&mut out, *sequence_number as u128);
                push_str(&mut out, " was already delivered or skipped");
            },
            BufferError::PacketTooOld { sequence_number, max_age_ms } => {
                push_str(&mut out, "packet too old: sequence ");
                push_decimal(&mut out, *sequence_number as u128);
                push_str(&mut out, " exceeded max age of ");
                push_decimal(&mut out, *max_age_ms as u128);
                push_str(&mut out, " ms");
            },
            BufferError::InvalidConfiguration(reason) => {
                push_str(&mut out, "invalid buffer configuration: ");
                push_str(&mut out, reason.as_str());
            },
            BufferError::InvalidTargetDelay { requested_ms, min_ms, max_ms } => {
                push_str(&mut out, "invalid target delay: ");
                push_decimal(&mut out, *requested_ms as u128);
                push_str(&mut out, " ms is outside allowed range [");
                push_decimal(&mut out, *min_ms as u128);
                push_str(&mut out, ", ");
                push_decimal(&mut out, *max_ms as u128);
                push_str(&mut out, "] ms");
            },
            BufferError::OperationFailed(reason) => {
                push_str(&mut out, "buffer operation failed: ");
                push_str(&mut out, reason.as_str());
            },
        }
        assert(out@ =~= self.message());
        string_from_chars(&out)
    }
}

} // verus!
