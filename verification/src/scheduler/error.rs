//! The Playback Scheduler's single error type.

use vstd::prelude::*;

use crate::text::{decimal, push_decimal, push_str, string_from_chars};

verus! {

/// Errors that can occur while operating the Playback Scheduler.
#[derive(Debug, Clone, PartialEq, Eq)]
pub enum SchedulerError {
    /// A configuration failed validation; the text says which invariant.
    InvalidConfiguration(String),
    /// The scheduler is not running.
    NotStarted,
    /// `start` was called while already running.
    AlreadyStarted,
    /// A packet with this id is already queued.
    DuplicatePacket { packet_id: u64 },
    /// The playback queue is at capacity.
    QueueFull { capacity: usize },
    /// The packet's deadline had passed by more than the late threshold.
    PacketExpired { packet_id: u64, late_by_ms: u64 },
    /// No packet with this id is queued.
    PacketNotFound { packet_id: u64 },
    /// The Clock Synchronization Engine failed; the text is its message.
    SyncError(String),
    /// A scheduling computation or lock failed.
    OperationFailed(String),
}

impl SchedulerError {
    /// The human-readable message of the error.
    pub open spec fn message(&self) -> Seq<char> {
        match self {
            SchedulerError::InvalidConfiguration(reason) => "invalid scheduler configuration: "@
                + reason@,
            SchedulerError::NotStarted => "scheduler is not started"@,
            SchedulerError::AlreadyStarted => "scheduler is already started"@,
            SchedulerError::DuplicatePacket { packet_id } => "packet "@ + decimal(*packet_id as nat)
                + " is already scheduled"@,
            SchedulerError::QueueFull { capacity } => "playback queue is full (capacity: "@
                + decimal(*capacity as nat) + ")"@,
            SchedulerError::PacketExpired { packet_id, late_by_ms } => "packet "@ + decimal(
                *packet_id as nat,
            ) + " expired: "@ + decimal(*late_by_ms as nat) + " ms past the maximum late threshold"@,
            SchedulerError::PacketNotFound { packet_id } => "packet "@ + decimal(*packet_id as nat)
                + " is not currently scheduled"@,
            SchedulerError::SyncError(err) => "clock synchronization error: "@ + err@,
            SchedulerError::OperationFailed(reason) => "scheduler operation failed: "@ + reason@,
        }
    }

    /// Renders the error's message.
    pub fn to_string(&self) -> (r: String)
        ensures
            r@ == self.message(),
    {
        let mut out: Vec<char> = Vec::new();
        match self {
            SchedulerError::InvalidConfiguration(reason) => {
                push_str(&mut out, "invalid scheduler configuration: ");
                push_str(&mut out, reason.as_str());
            },
            SchedulerError::NotStarted => push_str(&mut out, "scheduler is not started"),
            SchedulerError::AlreadyStarted => push_str(&mut out, "scheduler is already started"),
            SchedulerError::DuplicatePacket { packet_id } => {
                push_str(&mut out, "packet ");
                push_decimal(&mut out, *packet_id as u128);
                push_str(&mut out, " is already scheduled");
            },
            SchedulerError::QueueFull { capacity } => {
                push_str(&mut out, "playback queue is full (capacity: ");
                push_decimal(&mut out, *capacity as u128);
                push_str(&mut out, ")");
            },
            SchedulerError::PacketExpired { packet_id, late_by_ms } => {
                push_str(&mut out, "packet ");
                push_decimal(&mut out, *packet_id as u128);
                push_str(&mut out, " expired: ");
                push_decimal(&mut out, *late_by_ms as u128);
                push_str(&mut out, " ms past the maximum late threshold");
            },
            SchedulerError::PacketNotFound { packet_id } => {
                push_str(&mut out, "packet ");
                push_decimal(&mut out, *packet_id as u128);
                push_str(&mut out, " is not currently scheduled");
            },
            SchedulerError::SyncError(err) => {
                push_str(&mut out, "clock synchronization error: ");
                push_str(&mut out, err.as_str());
            },
            SchedulerError::OperationFailed(reason) => {
                push_str(&mut out, "scheduler operation failed: ");
                push_str(&mut out, reason.as_str());
            },
        }
        assert(out@ =~= self.message());
        string_from_chars(&out)
    }
}

} // verus!
