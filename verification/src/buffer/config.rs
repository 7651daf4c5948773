//! Configuration of the Buffer Layer: buffer sizes, target-delay bounds,
//! maximum packet age, duplicate-cache size, loss tolerance and the
//! adaptive step.

use vstd::prelude::*;

use crate::buffer::error::BufferError;
use crate::text::{push_str, string_from_chars};
use crate::time_span::{millis_nanos, TimeSpan};

verus! {

/// Default number of slots the buffer is pre-sized to.
pub const DEFAULT_INITIAL_BUFFER_SIZE: usize = 32;
/// Default number of packets held before the oldest is dropped.
pub const DEFAULT_MAX_BUFFER_SIZE: usize = 512;
/// Default target delay, in milliseconds.
pub const DEFAULT_TARGET_DELAY_MS: u64 = 60;
/// Default lower bound of the target delay, in milliseconds.
pub const DEFAULT_MIN_TARGET_DELAY_MS: u64 = 20;
/// Default upper bound of the target delay, in milliseconds.
pub const DEFAULT_MAX_TARGET_DELAY_MS: u64 = 400;
/// Default maximum age of a buffered packet, in milliseconds.
pub const DEFAULT_MAX_PACKET_AGE_MS: u64 = 1000;
/// Default number of delivered sequence numbers remembered.
pub const DEFAULT_DUPLICATE_CACHE_SIZE: usize = 256;
/// Default gap, in sequence numbers, above which a packet counts as late.
pub const DEFAULT_MAX_MISSING_PACKETS: u64 = 50;
/// Default step of the adaptive target delay, in milliseconds.
pub const DEFAULT_ADAPTIVE_STEP_MS: u64 = 5;

/// Runtime configuration of a jitter buffer.
#[derive(Debug, Clone, PartialEq, Eq, Structural)]
pub struct BufferConfig {
    /// Slots the buffer is pre-sized to (advisory).
    pub initial_buffer_size: usize,
    /// Packets held before the oldest is dropped to make room.
    pub max_buffer_size: usize,
    /// How long a packet is held before it may be released.
    pub target_delay: TimeSpan,
    /// Lower bound of the target delay.
    pub min_target_delay: TimeSpan,
    /// Upper bound of the target delay.
    pub max_target_delay: TimeSpan,
    /// Age beyond which a buffered packet is dropped as stale.
    pub max_packet_age: TimeSpan,
    /// Delivered sequence numbers remembered for duplicate detection.
    pub duplicate_cache_size: usize,
    /// Gap above which an admitted packet counts as late.
    pub max_missing_packets: u64,
    /// Whether the target delay follows the observed jitter.
    pub adaptive_enabled: bool,
    /// Most the adaptive target delay moves per arrival.
    pub adaptive_step: TimeSpan,
}

/// The invariants `validate` checks, in its order: positive maximum size,
/// initial size within it, ordered delay bounds, target delay within them,
/// positive duplicate cache.
pub open spec fn config_valid(c: BufferConfig) -> bool {
    &&& c.max_buffer_size > 0
    &&& c.initial_buffer_size <= c.max_buffer_size
    &&& c.min_target_delay@ <= c.max_target_delay@
    &&& c.min_target_delay@ <= c.target_delay@ <= c.max_target_delay@
    &&& c.duplicate_cache_size > 0
}

/// The message `validate` gives for the first invariant `c` breaks.
pub open spec fn config_error_message(c: BufferConfig) -> Seq<char> {
    if c.max_buffer_size == 0 {
        "max_buffer_size must be greater than zero"@
    } else if c.initial_buffer_size > c.max_buffer_size {
        "initial_buffer_size cannot exceed max_buffer_size"@
    } else if c.min_target_delay@ > c.max_target_delay@ {
        "min_target_delay cannot exceed max_target_delay"@
    } else if c.target_delay@ < c.min_target_delay@ || c.target_delay@ > c.max_target_delay@ {
        "target_delay must fall within [min_target_delay, max_target_delay]"@
    } else {
        "duplicate_cache_size must be greater than zero"@
    }
}

fn invalid_configuration(msg: &str) -> (r: BufferError)
    ensures
        r matches BufferError::InvalidConfiguration(m) && m@ == msg@,
{
    let mut out: Vec<char> = Vec::new();
    push_str(&mut out, msg);
    BufferError::InvalidConfiguration(string_from_chars(&out))
}

impl BufferConfig {
    /// Small buffers, short delays and a small duplicate cache: for tests.
    pub fn for_tests() -> (r: Self)
        ensures
            r.initial_buffer_size == 4,
            r.max_buffer_size == 16,
            r.target_delay@ == millis_nanos(20),
            r.min_target_delay@ == millis_nanos(5),
            r.max_target_delay@ == millis_nanos(100),
            r.max_packet_age@ == millis_nanos(200),
            r.duplicate_cache_size == 32,
            r.max_missing_packets == 5,
            r.adaptive_enabled,
            r.adaptive_step@ == millis_nanos(2),
    {
        BufferConfig {
            initial_buffer_size: 4,
            max_buffer_size: 16,
            target_delay: TimeSpan::from_millis(20),
            min_target_delay: TimeSpan::from_millis(5),
            max_target_delay: TimeSpan::from_millis(100),
            max_packet_age: TimeSpan::from_millis(200),
            duplicate_cache_size: 32,
            max_missing_packets: 5,
            adaptive_enabled: true,
            adaptive_step: TimeSpan::from_millis(2),
        }
    }

    /// Checks the configuration's invariants; on failure the error names
    /// the first one broken.
    pub fn validate(&self) -> (r: Result<(), BufferError>)
        ensures
            r is Ok <==> config_valid(*self),
            r matches Err(e) ==> e matches BufferError::InvalidConfiguration(m) && m@
                == config_error_message(*self),
    {
        if self.max_buffer_size == 0 {
            return Err(invalid_configuration("max_buffer_size must be greater than zero"));
        }
        if self.initial_buffer_size > self.max_buffer_size {
            return Err(invalid_configuration("initial_buffer_size cannot exceed max_buffer_size"));
        }
        if self.min_target_delay.as_nanos() > self.max_target_delay.as_nanos() {
            return Err(invalid_configuration("min_target_delay cannot exceed max_target_delay"));
        }
        if self.target_delay.as_nanos() < self.min_target_delay.as_nanos()
            || self.target_delay.as_nanos() > self.max_target_delay.as_nanos() {
            return Err(
                invalid_configuration(
                    "target_delay must fall within [min_target_delay, max_target_delay]",
                ),
            );
        }
        if self.duplicate_cache_size == 0 {
            return Err(invalid_configuration("duplicate_cache_size must be greater than zero"));
        }
        Ok(())
    }
}

impl Default for BufferConfig {
    /// Production defaults.
    fn default() -> (r: Self)
        ensures
            r.initial_buffer_size == DEFAULT_INITIAL_BUFFER_SIZE,
            r.max_buffer_size == DEFAULT_MAX_BUFFER_SIZE,
            r.target_delay@ == millis_nanos(DEFAULT_TARGET_DELAY_MS as int),
            r.min_target_delay@ == millis_nanos(DEFAULT_MIN_TARGET_DELAY_MS as int),
            r.max_target_delay@ == millis_nanos(DEFAULT_MAX_TARGET_DELAY_MS as int),
            r.max_packet_age@ == millis_nanos(DEFAULT_MAX_PACKET_AGE_MS as int),
            r.duplicate_cache_size == DEFAULT_DUPLICATE_CACHE_SIZE,
            r.max_missing_packets == DEFAULT_MAX_MISSING_PACKETS,
            r.adaptive_enabled,
            r.adaptive_step@ == millis_nanos(DEFAULT_ADAPTIVE_STEP_MS as int),
    {
        BufferConfig {
            initial_buffer_size: DEFAULT_INITIAL_BUFFER_SIZE,
            max_buffer_size: DEFAULT_MAX_BUFFER_SIZE,
            target_delay: TimeSpan::from_millis(DEFAULT_TARGET_DELAY_MS),
            min_target_delay: TimeSpan::from_millis(DEFAULT_MIN_TARGET_DELAY_MS),
            max_target_delay: TimeSpan::from_millis(DEFAULT_MAX_TARGET_DELAY_MS),
            max_packet_age: TimeSpan::from_millis(DEFAULT_MAX_PACKET_AGE_MS),
            duplicate_cache_size: DEFAULT_DUPLICATE_CACHE_SIZE,
            max_missing_packets: DEFAULT_MAX_MISSING_PACKETS,
            adaptive_enabled: true,
            adaptive_step: TimeSpan::from_millis(DEFAULT_ADAPTIVE_STEP_MS),
        }
    }
}

/// A buffer configuration is accepted exactly when its maximum size is
/// non-zero, its initial size does not exceed the maximum, its delay bounds
/// are ordered with the target delay between them, and its duplicate cache
/// is non-zero; a refused one is refused for the earliest of these that
/// fails, in that order.
pub proof fn lemma_buffer_config_refusals(c: BufferConfig)
    ensures
        config_valid(c) <==> (c.max_buffer_size != 0 && c.initial_buffer_size <= c.max_buffer_size
            && c.min_target_delay@ <= c.max_target_delay@ && c.min_target_delay@ <= c.target_delay@
            && c.target_delay@ <= c.max_target_delay@ && c.duplicate_cache_size != 0),
        c.max_buffer_size == 0 ==> config_error_message(c)
            == "max_buffer_size must be greater than zero"@,
        c.max_buffer_size != 0 && c.initial_buffer_size > c.max_buffer_size ==> config_error_message(c)
            == "initial_buffer_size cannot exceed max_buffer_size"@,
        c.max_buffer_size != 0 && c.initial_buffer_size <= c.max_buffer_size && c.min_target_delay@
            > c.max_target_delay@ ==> config_error_message(c)
            == "min_target_delay cannot exceed max_target_delay"@,
        c.max_buffer_size != 0 && c.initial_buffer_size <= c.max_buffer_size && c.min_target_delay@
            <= c.max_target_delay@ && !(c.min_target_delay@ <= c.target_delay@ <= c.max_target_delay@)
            ==> config_error_message(c)
            == "target_delay must fall within [min_target_delay, max_target_delay]"@,
        c.max_buffer_size != 0 && c.initial_buffer_size <= c.max_buffer_size && c.min_target_delay@
            <= c.target_delay@ <= c.max_target_delay@ && c.duplicate_cache_size == 0
            ==> config_error_message(c) == "duplicate_cache_size must be greater than zero"@,
{
}

} // verus!
