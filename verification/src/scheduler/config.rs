//! Configuration of the Playback Scheduler: playback latency, late and
//! early tolerance windows, polling interval, queue capacity and timeline
//! resolution.

use vstd::prelude::*;

use crate::scheduler::error::SchedulerError;
use crate::text::{push_str, string_from_chars};
use crate::time_span::{millis_nanos, TimeSpan};

verus! {

/// Default playback latency, in milliseconds.
pub const DEFAULT_PLAYBACK_LATENCY_MS: u64 = 150;
/// Default lateness tolerated before a packet is dropped, in milliseconds.
pub const DEFAULT_MAX_LATE_THRESHOLD_MS: u64 = 200;
/// Default earliness above which a packet counts as early, in milliseconds.
pub const DEFAULT_MAX_EARLY_THRESHOLD_MS: u64 = 500;
/// Default polling interval, in milliseconds.
pub const DEFAULT_SCHEDULING_INTERVAL_MS: u64 = 10;
/// Default playback queue capacity.
pub const DEFAULT_QUEUE_CAPACITY: usize = 512;
/// Default timeline resolution, in milliseconds.
pub const DEFAULT_TIMELINE_RESOLUTION_MS: u64 = 1;

/// Runtime configuration of the Playback Scheduler.
#[derive(Debug, Clone, PartialEq, Eq, Structural)]
pub struct SchedulerConfig {
    /// Headroom added to a packet's expected playback time.
    pub playback_latency: TimeSpan,
    /// Lateness at scheduling beyond which a packet is dropped.
    pub max_late_threshold: TimeSpan,
    /// Earliness at scheduling beyond which a packet counts as early.
    pub max_early_threshold: TimeSpan,
    /// Interval at which an external driver polls for due packets.
    pub scheduling_interval: TimeSpan,
    /// Most packets the playback queue holds.
    pub queue_capacity: usize,
    /// Granularity of timeline readings.
    pub timeline_resolution: TimeSpan,
}

/// The invariants `validate` checks: every span and the capacity positive.
pub open spec fn config_valid(c: SchedulerConfig) -> bool {
    &&& c.max_late_threshold@ > 0
    &&& c.max_early_threshold@ > 0
    &&& c.scheduling_interval@ > 0
    &&& c.queue_capacity > 0
    &&& c.timeline_resolution@ > 0
}

/// The message `validate` gives for the first invariant `c` breaks.
pub open spec fn config_error_message(c: SchedulerConfig) -> Seq<char> {
    if c.max_late_threshold@ == 0 {
        "max_late_threshold must be greater than zero"@
    } else if c.max_early_threshold@ == 0 {
        "max_early_threshold must be greater than zero"@
    } else if c.scheduling_interval@ == 0 {
        "scheduling_interval must be greater than zero"@
    } else if c.queue_capacity == 0 {
        "queue_capacity must be greater than zero"@
    } else {
        "timeline_resolution must be greater than zero"@
    }
}

fn invalid_configuration(msg: &str) -> (r: SchedulerError)
    ensures
        r matches SchedulerError::InvalidConfiguration(m) && m@ == msg@,
{
    let mut out: Vec<char> = Vec::new();
    push_str(&mut out, msg);
    SchedulerError::InvalidConfiguration(string_from_chars(&out))
}

impl SchedulerConfig {
    /// Short latencies and thresholds and a small queue: for tests.
    pub fn for_tests() -> (r: Self)
        ensures
            r.playback_latency@ == millis_nanos(20),
            r.max_late_threshold@ == millis_nanos(50),
            r.max_early_threshold@ == millis_nanos(100),
            r.scheduling_interval@ == millis_nanos(5),
            r.queue_capacity == 16,
            r.timeline_resolution@ == millis_nanos(1),
    {
        SchedulerConfig {
            playback_latency: TimeSpan::from_millis(20),
            max_late_threshold: TimeSpan::from_millis(50),
            max_early_threshold: TimeSpan::from_millis(100),
            scheduling_interval: TimeSpan::from_millis(5),
            queue_capacity: 16,
            timeline_resolution: TimeSpan::from_millis(1),
        }
    }

    /// Checks that every span and the queue capacity are positive; on
    /// failure the error names the first one that is not.
    pub fn validate(&self) -> (r: Result<(), SchedulerError>)
        ensures
            r is Ok <==> config_valid(*self),
            r matches Err(e) ==> e matches SchedulerError::InvalidConfiguration(m) && m@
                == config_error_message(*self),
    {
        if self.max_late_threshold.is_zero() {
            return Err(invalid_configuration("max_late_threshold must be greater than zero"));
        }
        if self.max_early_threshold.is_zero() {
            return Err(invalid_configuration("max_early_threshold must be greater than zero"));
        }
        if self.scheduling_interval.is_zero() {
            return Err(invalid_configuration("scheduling_interval must be greater than zero"));
        }
        if self.queue_capacity == 0 {
            return Err(invalid_configuration("queue_capacity must be greater than zero"));
        }
        if self.timeline_resolution.is_zero() {
            return Err(invalid_configuration("timeline_resolution must be greater than zero"));
        }
        Ok(())
    }
}

impl Default for SchedulerConfig {
    /// Production defaults.
    fn default() -> (r: Self)
        ensures
            r.playback_latency@ == millis_nanos(DEFAULT_PLAYBACK_LATENCY_MS as int),
            r.max_late_threshold@ == millis_nanos(DEFAULT_MAX_LATE_THRESHOLD_MS as int),
            r.max_early_threshold@ == millis_nanos(DEFAULT_MAX_EARLY_THRESHOLD_MS as int),
            r.scheduling_interval@ == millis_nanos(DEFAULT_SCHEDULING_INTERVAL_MS as int),
            r.queue_capacity == DEFAULT_QUEUE_CAPACITY,
            r.timeline_resolution@ == millis_nanos(DEFAULT_TIMELINE_RESOLUTION_MS as int),
    {
        SchedulerConfig {
            playback_latency: TimeSpan::from_millis(DEFAULT_PLAYBACK_LATENCY_MS),
            max_late_threshold: TimeSpan::from_millis(DEFAULT_MAX_LATE_THRESHOLD_MS),
            max_early_threshold: TimeSpan::from_millis(DEFAULT_MAX_EARLY_THRESHOLD_MS),
            scheduling_interval: TimeSpan::from_millis(DEFAULT_SCHEDULING_INTERVAL_MS),
            queue_capacity: DEFAULT_QUEUE_CAPACITY,
            timeline_resolution: TimeSpan::from_millis(DEFAULT_TIMELINE_RESOLUTION_MS),
        }
    }
}

/// A scheduler configuration is accepted exactly when its late and early
/// thresholds, scheduling interval, queue capacity and timeline resolution
/// are all non-zero; a refused one is refused for a field that really is
/// zero, the earliest of them in that order.
pub proof fn lemma_scheduler_config_refusals(c: SchedulerConfig)
    ensures
        config_valid(c) <==> (c.max_late_threshold@ != 0 && c.max_early_threshold@ != 0
            && c.scheduling_interval@ != 0 && c.queue_capacity != 0 && c.timeline_resolution@ != 0),
        c.max_late_threshold@ == 0 ==> config_error_message(c)
            == "max_late_threshold must be greater than zero"@,
        c.max_late_threshold@ != 0 && c.max_early_threshold@ == 0 ==> config_error_message(c)
            == "max_early_threshold must be greater than zero"@,
        c.max_late_threshold@ != 0 && c.max_early_threshold@ != 0 && c.scheduling_interval@ == 0
            ==> config_error_message(c) == "scheduling_interval must be greater than zero"@,
        c.max_late_threshold@ != 0 && c.max_early_threshold@ != 0 && c.scheduling_interval@ != 0
            && c.queue_capacity == 0 ==> config_error_message(c)
            == "queue_capacity must be greater than zero"@,
        c.max_late_threshold@ != 0 && c.max_early_threshold@ != 0 && c.scheduling_interval@ != 0
            && c.queue_capacity != 0 && c.timeline_resolution@ == 0 ==> config_error_message(c)
            == "timeline_resolution must be greater than zero"@,
{
}

} // verus!
