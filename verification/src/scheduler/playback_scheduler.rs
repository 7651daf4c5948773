//! The Playback Scheduler's decisions: when a packet is scheduled, its
//! deadline is computed on the playback timeline and it is classified as
//! on time, late, early, or too late (dropped); queued packets are released
//! earliest deadline first once their deadline has come.
//!
//! The caller supplies what lies outside: the packet's capture timestamp
//! already corrected by the clock-synchronization offset, and `elapsed`,
//! the reading of its monotonic clock since the timeline was (re)started.
//! The running statistics (floating-point averages) are kept by the caller
//! too, from what each call reports.

use vstd::multiset::Multiset;
use vstd::prelude::*;

use crate::scheduler::config::{config_error_message, config_valid, SchedulerConfig};
use crate::scheduler::error::SchedulerError;
use crate::scheduler::playback_queue::{
    holds_id, is_first, is_without_id, PlaybackQueue, ScheduledPacket,
};
use crate::scheduler::timeline::{
    anchor_after, placement_fits, playback_time, quantize, step_ms, PlaybackTimeline, TimelineModel,
};
use crate::streaming::packet::AudioPacket;
use crate::time_span::{TimeSpan, MAX_NANOS};

verus! {

/// How a packet's deadline compared with the current time at scheduling.
#[derive(Debug, Clone, Copy, PartialEq, Eq, Structural)]
pub enum Punctuality {
    /// Due within the early threshold.
    OnTime,
    /// Already past its deadline, within the late threshold.
    Late,
    /// Due further ahead than the early threshold.
    Early,
    /// Past its deadline by more than the late threshold: dropped.
    Dropped,
}

/// What `schedule_packet` reports: how the packet was classified (`None`
/// when the scheduler was not running), and the result — on success the
/// distance between deadline and current time in milliseconds.
#[derive(Debug, PartialEq, Eq)]
pub struct ScheduleReport {
    pub punctuality: Option<Punctuality>,
    pub result: Result<u64, SchedulerError>,
}

/// A released packet and how far past its deadline it was released, in
/// milliseconds.
#[derive(Debug)]
pub struct Release {
    pub packet: AudioPacket,
    pub playback_offset_ms: i64,
}

/// The plain state of a [`PlaybackScheduler`].
pub struct SchedulerModel {
    pub queue: Multiset<ScheduledPacket>,
    pub capacity: nat,
    pub timeline: TimelineModel,
    pub running: bool,
    pub config: SchedulerConfig,
}

/// Computes deadlines and releases packets in deadline order.
#[derive(Debug)]
pub struct PlaybackScheduler {
    queue: PlaybackQueue,
    timeline: PlaybackTimeline,
    running: bool,
    config: SchedulerConfig,
}

impl View for PlaybackScheduler {
    type V = SchedulerModel;

    closed spec fn view(&self) -> SchedulerModel {
        SchedulerModel {
            queue: self.queue@,
            capacity: self.queue.capacity_spec(),
            timeline: self.timeline@,
            running: self.running,
            config: self.config,
        }
    }
}

/// The deadline of a packet with (corrected) capture timestamp `ts`
/// scheduled at `elapsed`, in nanoseconds.
pub open spec fn deadline_of(m: SchedulerModel, ts: u64, elapsed: nat) -> nat {
    playback_time(m.timeline, ts, elapsed) + m.config.playback_latency@
}

/// The current timeline moment at `elapsed`, in nanoseconds.
pub open spec fn now_of(m: SchedulerModel, elapsed: nat) -> nat {
    quantize(m.timeline.resolution, elapsed)
}

/// Whole milliseconds of a span, as an `i64`.
pub open spec fn ms_i64(nanos: nat) -> i64 {
    (nanos / 1_000_000) as i64
}

/// Whole milliseconds of a span, as a `u64`.
pub open spec fn ms_u64(nanos: nat) -> u64 {
    (nanos / 1_000_000) as u64
}

/// Deadline minus current time, in (converted) milliseconds.
pub open spec fn schedule_diff(m: SchedulerModel, ts: u64, elapsed: nat) -> int {
    ms_i64(deadline_of(m, ts, elapsed)) - ms_i64(now_of(m, elapsed))
}

/// The classification of a packet with (corrected) capture timestamp `ts`.
pub open spec fn punctuality_of(m: SchedulerModel, ts: u64, elapsed: nat) -> Punctuality {
    let diff = schedule_diff(m, ts, elapsed);
    if diff < 0 {
        if -diff > ms_u64(m.config.max_late_threshold@) {
            Punctuality::Dropped
        } else {
            Punctuality::Late
        }
    } else if diff > ms_u64(m.config.max_early_threshold@) {
        Punctuality::Early
    } else {
        Punctuality::OnTime
    }
}

/// Scheduling stays within the largest span and 64-bit arithmetic.
pub open spec fn schedule_fits(m: SchedulerModel, ts: u64, elapsed: nat) -> bool {
    &&& placement_fits(m.timeline, ts, elapsed)
    &&& deadline_of(m, ts, elapsed) <= MAX_NANOS
    &&& i64::MIN < schedule_diff(m, ts, elapsed) <= i64::MAX
}

/// Releasing at `elapsed` stays within 64-bit arithmetic.
pub open spec fn release_fits(m: SchedulerModel, elapsed: nat) -> bool {
    forall|x: ScheduledPacket|
        is_first(m.queue, x) ==> i64::MIN <= #[trigger] ms_i64(now_of(m, elapsed)) - ms_i64(x.deadline@)
            <= i64::MAX
}

impl PlaybackScheduler {
    /// The scheduler's invariants.
    pub closed spec fn wf(&self) -> bool {
        &&& self.queue.wf()
        &&& self.timeline.wf()
        &&& config_valid(self.config)
        &&& self.queue.capacity_spec() == self.config.queue_capacity
    }

    /// A stopped scheduler with an empty queue; `InvalidConfiguration` when
    /// `config` does not validate. The timeline step in milliseconds must
    /// not truncate to zero in 64 bits.
    pub fn new(config: SchedulerConfig) -> (r: Result<Self, SchedulerError>)
        requires
            step_ms(config.timeline_resolution@) != 0,
        ensures
            r is Ok <==> config_valid(config),
            r matches Err(e) ==> e matches SchedulerError::InvalidConfiguration(msg) && msg@
                == config_error_message(config),
            r matches Ok(s) ==> {
                &&& s.wf()
                &&& s@.queue == Multiset::<ScheduledPacket>::empty()
                &&& s@.capacity == config.queue_capacity
                &&& s@.timeline.anchor is None
                &&& s@.timeline.resolution == config.timeline_resolution@
                &&& !s@.running
                &&& s@.config == config
            },
    {
        match config.validate() {
            Err(e) => Err(e),
            Ok(()) => {
                let queue = PlaybackQueue::new(config.queue_capacity);
                let timeline = PlaybackTimeline::new(config.timeline_resolution);
                Ok(PlaybackScheduler { queue, timeline, running: false, config })
            },
        }
    }

    /// The configuration the scheduler was created with.
    pub fn config(&self) -> (r: &SchedulerConfig)
        ensures
            *r == self@.config,
    {
        &self.config
    }

    /// Starts the scheduler and clears the timeline's anchor (the caller
    /// restarts its elapsed-time clock); `AlreadyStarted` when running.
    pub fn start(&mut self) -> (r: Result<(), SchedulerError>)
        requires
            old(self).wf(),
        ensures
            final(self).wf(),
            old(self)@.running ==> r == Err::<(), SchedulerError>(SchedulerError::AlreadyStarted)
                && final(self)@ == old(self)@,
            !old(self)@.running ==> r is Ok && final(self)@ == (SchedulerModel {
                running: true,
                timeline: TimelineModel { anchor: None, ..old(self)@.timeline },
                ..old(self)@
            }),
    {
        if self.running {
            return Err(SchedulerError::AlreadyStarted);
        }
        self.running = true;
        let _ = self.timeline.reset();
        Ok(())
    }

    /// Stops the scheduler, keeping the queue; `NotStarted` when stopped.
    pub fn stop(&mut self) -> (r: Result<(), SchedulerError>)
        requires
            old(self).wf(),
        ensures
            final(self).wf(),
            !old(self)@.running ==> r == Err::<(), SchedulerError>(SchedulerError::NotStarted)
                && final(self)@ == old(self)@,
            old(self)@.running ==> r is Ok && final(self)@ == (SchedulerModel {
                running: false,
                ..old(self)@
            }),
    {
        if !self.running {
            return Err(SchedulerError::NotStarted);
        }
        self.running = false;
        Ok(())
    }

    /// Schedules `packet`, whose capture timestamp corrected by the clock
    /// offset is `timestamp_ms`, at timeline reading `elapsed`. The deadline
    /// is the packet's expected playback time plus the playback latency. A
    /// packet past its deadline by more than the late threshold is dropped
    /// (`PacketExpired`); otherwise it is classified late, early or on time
    /// and queued, which may fail with `DuplicatePacket` or `QueueFull`. On
    /// success the result is the deadline's distance from now, in ms.
    pub fn schedule_packet(&mut self, packet: AudioPacket, timestamp_ms: u64, elapsed: TimeSpan) -> (r:
        ScheduleReport)
        requires
            old(self).wf(),
            old(self)@.running ==> schedule_fits(old(self)@, timestamp_ms, elapsed@),
        ensures
            final(self).wf(),
            ({
                let m = old(self)@;
                let f = final(self)@;
                let diff = schedule_diff(m, timestamp_ms, elapsed@);
                let punctuality = punctuality_of(m, timestamp_ms, elapsed@);
                let id = packet.packet_id;
                if !m.running {
                    &&& r.punctuality is None
                    &&& r.result == Err::<u64, SchedulerError>(SchedulerError::NotStarted)
                    &&& f == m
                } else {
                    &&& r.punctuality == Some(punctuality)
                    &&& f.running && f.config == m.config && f.capacity == m.capacity
                    &&& f.timeline == TimelineModel {
                        anchor: Some(anchor_after(m.timeline, timestamp_ms, elapsed@)),
                        ..m.timeline
                    }
                    &&& if punctuality == Punctuality::Dropped {
                        &&& r.result == Err::<u64, SchedulerError>(SchedulerError::PacketExpired {
                            packet_id: id,
                            late_by_ms: (-diff) as u64,
                        })
                        &&& f.queue == m.queue
                    } else if holds_id(m.queue, id) {
                        &&& r.result == Err::<u64, SchedulerError>(SchedulerError::DuplicatePacket { packet_id: id })
                        &&& f.queue == m.queue
                    } else if m.queue.len() >= m.capacity {
                        &&& r.result == Err::<u64, SchedulerError>(SchedulerError::QueueFull { capacity: m.capacity as usize })
                        &&& f.queue == m.queue
                    } else {
                        &&& r.result == Ok::<u64, SchedulerError>((if diff < 0 { -diff } else { diff }) as u64)
                        &&& exists|item: ScheduledPacket| {
                            &&& item.packet == packet
                            &&& item.deadline@ == deadline_of(m, timestamp_ms, elapsed@)
                            &&& item.scheduled_at@ == now_of(m, elapsed@)
                            &&& f.queue == m.queue.insert(item)
                        }
                    }
                }
            }),
    {
        if !self.running {
            return ScheduleReport { punctuality: None, result: Err(SchedulerError::NotStarted) };
        }
        let ghost m = self@;
        let packet_id = packet.packet_id;
        let deadline = self.timeline.calculate_deadline(timestamp_ms, self.config.playback_latency, elapsed);
        let now = self.timeline.current_time(elapsed);
        let deadline_ms = deadline.as_millis() as i64;
        let now_ms = now.as_millis() as i64;
        let diff_ms = deadline_ms - now_ms;
        let punctuality = if diff_ms < 0 {
            let late_by_ms = (-diff_ms) as u64;
            if late_by_ms > self.config.max_late_threshold.as_millis() as u64 {
                return ScheduleReport {
                    punctuality: Some(Punctuality::Dropped),
                    result: Err(SchedulerError::PacketExpired { packet_id, late_by_ms }),
                };
            }
            Punctuality::Late
        } else if diff_ms as u64 > self.config.max_early_threshold.as_millis() as u64 {
            Punctuality::Early
        } else {
            Punctuality::OnTime
        };
        let item = ScheduledPacket { packet, deadline, scheduled_at: now };
        match self.queue.enqueue(item) {
            Err(e) => ScheduleReport { punctuality: Some(punctuality), result: Err(e) },
            Ok(()) => {
                let distance: u64 = if diff_ms < 0 {
                    (-diff_ms) as u64
                } else {
                    diff_ms as u64
                };
                ScheduleReport { punctuality: Some(punctuality), result: Ok(distance) }
            },
        }
    }

    /// Releases the packet first in deadline order when its deadline has
    /// come at timeline reading `elapsed`; `Ok(None)` when the queue is
    /// empty or the first packet is not due. `NotStarted` when stopped.
    pub fn next_packet(&mut self, elapsed: TimeSpan) -> (r: Result<Option<Release>, SchedulerError>)
        requires
            old(self).wf(),
            release_fits(old(self)@, elapsed@),
        ensures
            final(self).wf(),
            ({
                let m = old(self)@;
                let f = final(self)@;
                let now = now_of(m, elapsed@);
                if !m.running {
                    &&& r == Err::<Option<Release>, SchedulerError>(SchedulerError::NotStarted)
                    &&& f == m
                } else if m.queue.len() > 0 && exists|x: ScheduledPacket| is_first(m.queue, x) && x.deadline@ <= now {
                    &&& r matches Ok(Some(rel)) && exists|x: ScheduledPacket| {
                        &&& is_first(m.queue, x)
                        &&& rel.packet == x.packet
                        &&& rel.playback_offset_ms == ms_i64(now) - ms_i64(x.deadline@)
                        &&& f == SchedulerModel { queue: m.queue.remove(x), ..m }
                    }
                } else {
                    &&& r == Ok::<Option<Release>, SchedulerError>(None)
                    &&& f == m
                }
            }),
    {
        if !self.running {
            return Err(SchedulerError::NotStarted);
        }
        let ghost m = self@;
        let now = self.timeline.current_time(elapsed);
        proof {
            self.queue.lemma_one_per_id();
        }
        let head = self.queue.peek();
        let due = match head {
            Ok(Some(h)) => h.deadline.as_nanos() <= now.as_nanos(),
            _ => false,
        };
        if !due {
            proof {
                if m.queue.len() > 0 {
                    let h = head->Ok_0->Some_0;
                    let y = choose|y: ScheduledPacket| is_first(m.queue, y) && h@ == y@;
                    assert forall|x: ScheduledPacket| is_first(m.queue, x) implies !(x.deadline@ <= now@) by {
                        crate::scheduler::playback_queue::lemma_first_is_unique(m.queue, x, y);
                    }
                }
            }
            return Ok(None);
        }
        let item = match self.queue.dequeue() {
            Ok(Some(item)) => item,
            _ => {
                return Ok(None);
            },
        };
        proof {
            assert(is_first(m.queue, item));
        }
        let playback_offset_ms = (now.as_millis() as i64) - (item.deadline.as_millis() as i64);
        Ok(Some(Release { packet: item.packet, playback_offset_ms }))
    }

    /// Removes the packet with `packet_id` before it is released;
    /// `Ok(true)` when one was queued.
    pub fn cancel_packet(&mut self, packet_id: u64) -> (r: Result<bool, SchedulerError>)
        requires
            old(self).wf(),
        ensures
            final(self).wf(),
            r == Ok::<bool, SchedulerError>(holds_id(old(self)@.queue, packet_id)),
            is_without_id(final(self)@.queue, old(self)@.queue, packet_id),
            final(self)@.running == old(self)@.running,
            final(self)@.timeline == old(self)@.timeline,
            final(self)@.config == old(self)@.config,
            final(self)@.capacity == old(self)@.capacity,
    {
        self.queue.cancel(packet_id)
    }

    /// Removes every queued packet.
    pub fn clear(&mut self) -> (r: Result<(), SchedulerError>)
        requires
            old(self).wf(),
        ensures
            final(self).wf(),
            r is Ok,
            final(self)@ == (SchedulerModel { queue: Multiset::empty(), ..old(self)@ }),
    {
        self.queue.clear()
    }

    /// Number of queued packets.
    pub fn queue_occupancy(&self) -> (r: usize)
        requires
            self.wf(),
        ensures
            r == self@.queue.len(),
    {
        self.queue.size()
    }

    /// Whether the scheduler is running.
    pub fn is_running(&self) -> (r: bool)
        ensures
            r == self@.running,
    {
        self.running
    }
}

/// How a packet is classified, in whole milliseconds: with the deadline
/// `d` and the current time `n`, a packet later than `max_late_threshold`
/// (`n - d` above it) is dropped, one late by at most that much is late, one
/// due further ahead than `max_early_threshold` is early, and any other is on
/// time. Only the late threshold decides the drop, only the early threshold
/// decides earliness. (Stated where the readings fit an `i64` and the
/// thresholds' milliseconds a `u64`.)
pub proof fn lemma_punctuality_by_thresholds(m: SchedulerModel, ts: u64, elapsed: nat)
    requires
        deadline_of(m, ts, elapsed) / 1_000_000 <= i64::MAX,
        now_of(m, elapsed) / 1_000_000 <= i64::MAX,
        m.config.max_late_threshold@ / 1_000_000 <= u64::MAX,
        m.config.max_early_threshold@ / 1_000_000 <= u64::MAX,
    ensures
        ({
            let lateness: int = (now_of(m, elapsed) / 1_000_000) as int - (deadline_of(m, ts, elapsed)
                / 1_000_000) as int;
            let late_limit: int = (m.config.max_late_threshold@ / 1_000_000) as int;
            let early_limit: int = (m.config.max_early_threshold@ / 1_000_000) as int;
            let p = punctuality_of(m, ts, elapsed);
            &&& (p == Punctuality::Dropped) <==> lateness > late_limit
            &&& (p == Punctuality::Late) <==> 0 < lateness <= late_limit
            &&& (p == Punctuality::Early) <==> -lateness > early_limit
            &&& (p == Punctuality::OnTime) <==> 0 <= -lateness <= early_limit
        }),
{
}

} // verus!
