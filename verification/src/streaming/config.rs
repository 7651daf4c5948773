//! Configuration for the Streaming Engine: queue sizes, timeouts, maximum
//! packet size, retries and worker count.

use vstd::prelude::*;

use crate::time_span::{millis_nanos, TimeSpan};

verus! {

/// Default capacity of each queue (outbound and inbound).
pub const DEFAULT_QUEUE_CAPACITY: usize = 512;
/// Default per-attempt send timeout, in milliseconds.
pub const DEFAULT_PACKET_TIMEOUT_MS: u64 = 200;
/// Default maximum payload size, in bytes (the Media Layer's limit).
pub const DEFAULT_MAX_PACKET_SIZE_BYTES: usize = 4000;
/// Default number of retries of a failed send.
pub const DEFAULT_MAX_RETRY_COUNT: u32 = 3;
/// Default number of outbound worker tasks.
pub const DEFAULT_WORKER_COUNT: usize = 2;
/// Default delay between send retries, in milliseconds.
pub const DEFAULT_RETRY_BACKOFF_MS: u64 = 20;

/// Runtime configuration of the Streaming Engine.
#[derive(Debug, Clone, PartialEq, Eq, Structural)]
pub struct StreamingConfig {
    /// Capacity of the outbound (Media -> Transport) queue.
    pub outbound_queue_capacity: usize,
    /// Capacity of the inbound (Transport -> playback) queue.
    pub inbound_queue_capacity: usize,
    /// Time one send attempt may take before it counts as timed out.
    pub packet_timeout: TimeSpan,
    /// Largest accepted payload, in bytes.
    pub max_packet_size_bytes: usize,
    /// Retries of a send that timed out.
    pub max_retry_count: u32,
    /// Delay between retries.
    pub retry_backoff: TimeSpan,
    /// Number of outbound worker tasks.
    pub worker_count: usize,
}

impl Default for StreamingConfig {
    /// Production defaults.
    fn default() -> (r: Self)
        ensures
            r.outbound_queue_capacity == DEFAULT_QUEUE_CAPACITY,
            r.inbound_queue_capacity == DEFAULT_QUEUE_CAPACITY,
            r.packet_timeout@ == millis_nanos(DEFAULT_PACKET_TIMEOUT_MS as int),
            r.max_packet_size_bytes == DEFAULT_MAX_PACKET_SIZE_BYTES,
            r.max_retry_count == DEFAULT_MAX_RETRY_COUNT,
            r.retry_backoff@ == millis_nanos(DEFAULT_RETRY_BACKOFF_MS as int),
            r.worker_count == DEFAULT_WORKER_COUNT,
    {
        StreamingConfig {
            outbound_queue_capacity: DEFAULT_QUEUE_CAPACITY,
            inbound_queue_capacity: DEFAULT_QUEUE_CAPACITY,
            packet_timeout: TimeSpan::from_millis(DEFAULT_PACKET_TIMEOUT_MS),
            max_packet_size_bytes: DEFAULT_MAX_PACKET_SIZE_BYTES,
            max_retry_count: DEFAULT_MAX_RETRY_COUNT,
            retry_backoff: TimeSpan::from_millis(DEFAULT_RETRY_BACKOFF_MS),
            worker_count: DEFAULT_WORKER_COUNT,
        }
    }
}

impl StreamingConfig {
    /// Small queues, a single retry and worker, short timeouts: for tests.
    pub fn for_tests() -> (r: Self)
        ensures
            r.outbound_queue_capacity == 8,
            r.inbound_queue_capacity == 8,
            r.packet_timeout@ == millis_nanos(50),
            r.max_packet_size_bytes == DEFAULT_MAX_PACKET_SIZE_BYTES,
            r.max_retry_count == 1,
            r.retry_backoff@ == millis_nanos(1),
            r.worker_count == 1,
    {
        StreamingConfig {
            outbound_queue_capacity: 8,
            inbound_queue_capacity: 8,
            packet_timeout: TimeSpan::from_millis(50),
            max_packet_size_bytes: DEFAULT_MAX_PACKET_SIZE_BYTES,
            max_retry_count: 1,
            retry_backoff: TimeSpan::from_millis(1),
            worker_count: 1,
        }
    }
}

} // verus!
