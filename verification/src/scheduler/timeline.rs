//! The Playback Scheduler's notion of "when": packet capture timestamps are
//! mapped onto a locally measured playback timeline. The first packet seen
//! after creation or reset anchors the timeline (its timestamp is paired
//! with the local time of that moment); later packets are placed at the
//! anchor plus their capture-time distance from it, and packets from
//! before the anchor are placed at the anchor. Readings are quantized to
//! the timeline's resolution.
//!
//! The local time is given by the caller as `elapsed`: the time a
//! monotonic clock has advanced since the timeline was created or last
//! reset.

use vstd::prelude::*;

use crate::scheduler::error::SchedulerError;
use crate::time_span::{millis_nanos, TimeSpan, MAX_NANOS};

verus! {

/// A capture timestamp paired with the timeline moment it was seen at.
#[derive(Debug, Clone, Copy)]
pub struct Anchor {
    /// The anchoring packet's capture timestamp, in milliseconds.
    pub timestamp_ms: u64,
    /// The timeline moment it was seen at.
    pub local_offset: TimeSpan,
}

/// Maps capture timestamps onto the local playback timeline.
#[derive(Debug)]
pub struct PlaybackTimeline {
    resolution: TimeSpan,
    anchor: Option<Anchor>,
}

/// The plain state of a [`PlaybackTimeline`].
pub struct TimelineModel {
    /// Quantization step, in nanoseconds.
    pub resolution: nat,
    /// `(capture timestamp, timeline moment in nanoseconds)` of the anchor.
    pub anchor: Option<(u64, nat)>,
}

impl View for PlaybackTimeline {
    type V = TimelineModel;

    closed spec fn view(&self) -> TimelineModel {
        TimelineModel {
            resolution: self.resolution@,
            anchor: match self.anchor {
                Some(a) => Some((a.timestamp_ms, a.local_offset@)),
                None => None,
            },
        }
    }
}

/// The quantization step in whole milliseconds, at least one, truncated to
/// 64 bits.
pub open spec fn step_ms(resolution: nat) -> u64 {
    let ms = resolution / 1_000_000;
    (if ms >= 1 {
        ms
    } else {
        1
    }) as u64
}

/// `d` rounded down to a multiple of the step, in nanoseconds (the
/// milliseconds of `d` truncated to 64 bits first).
pub open spec fn quantize(resolution: nat, d: nat) -> nat {
    let r = step_ms(resolution);
    let ms = (d / 1_000_000) as u64;
    millis_nanos((ms / r) * r) as nat
}

/// The anchor after placing `ts` at timeline reading `elapsed`.
pub open spec fn anchor_after(m: TimelineModel, ts: u64, elapsed: nat) -> (u64, nat) {
    match m.anchor {
        Some(a) => a,
        None => (ts, quantize(m.resolution, elapsed)),
    }
}

/// The expected playback moment of capture timestamp `ts`, in nanoseconds,
/// before quantization of the anchored sum.
pub open spec fn unquantized_playback(m: TimelineModel, ts: u64, elapsed: nat) -> nat {
    let a = anchor_after(m, ts, elapsed);
    if ts >= a.0 {
        a.1 + millis_nanos(ts - a.0) as nat
    } else {
        a.1
    }
}

/// The expected playback moment of capture timestamp `ts`, in nanoseconds.
pub open spec fn playback_time(m: TimelineModel, ts: u64, elapsed: nat) -> nat {
    let a = anchor_after(m, ts, elapsed);
    if ts >= a.0 {
        quantize(m.resolution, unquantized_playback(m, ts, elapsed))
    } else {
        a.1
    }
}

/// Placing `ts` at `elapsed` stays within the largest span.
pub open spec fn placement_fits(m: TimelineModel, ts: u64, elapsed: nat) -> bool {
    unquantized_playback(m, ts, elapsed) <= MAX_NANOS
}

impl PlaybackTimeline {
    /// The timeline's invariants: a positive resolution whose step in
    /// milliseconds does not truncate to zero in 64 bits.
    pub closed spec fn wf(&self) -> bool {
        &&& step_ms(self.resolution@) != 0
        &&& self.resolution@ >= 1
    }

    /// A new timeline without anchor. A zero `resolution` falls back to one
    /// millisecond. The step must not truncate to zero in 64 bits: reads
    /// are divided by it.
    pub fn new(resolution: TimeSpan) -> (r: Self)
        requires
            step_ms(if resolution@ == 0 { millis_nanos(1) as nat } else { resolution@ }) != 0,
        ensures
            r.wf(),
            r@.anchor is None,
            r@.resolution == if resolution@ == 0 { millis_nanos(1) as nat } else { resolution@ },
    {
        let resolution = if resolution.is_zero() {
            TimeSpan::from_millis(1)
        } else {
            resolution
        };
        PlaybackTimeline { resolution, anchor: None }
    }

    fn quantize(&self, duration: TimeSpan) -> (r: TimeSpan)
        requires
            self.wf(),
        ensures
            r@ == quantize(self@.resolution, duration@),
            r@ <= duration@,
    {
        let res_ms = self.resolution.as_millis();
        let step: u64 = (if res_ms >= 1 {
            res_ms
        } else {
            1
        }) as u64;
        let dm: u128 = duration.as_millis();
        let ms: u64 = dm as u64;
        proof {
            assert(step == step_ms(self@.resolution));
            assert((ms / step) * step <= ms) by (nonlinear_arith)
                requires
                    step > 0,
            ;
            assert(ms as u128 <= dm) by (bit_vector)
                requires
                    ms == dm as u64,
            ;
            assert(dm * 1_000_000 <= duration@);
        }
        TimeSpan::from_millis((ms / step) * step)
    }

    /// The timeline moment `elapsed` quantized to the resolution.
    pub fn current_time(&self, elapsed: TimeSpan) -> (r: TimeSpan)
        requires
            self.wf(),
        ensures
            r@ == quantize(self@.resolution, elapsed@),
    {
        self.quantize(elapsed)
    }

    /// The expected playback moment of a packet captured at
    /// `packet_timestamp_ms`; the first call without anchor anchors the
    /// timeline at `packet_timestamp_ms` and the current time.
    pub fn expected_playback_time(&mut self, packet_timestamp_ms: u64, elapsed: TimeSpan) -> (r: TimeSpan)
        requires
            old(self).wf(),
            placement_fits(old(self)@, packet_timestamp_ms, elapsed@),
        ensures
            final(self).wf(),
            final(self)@.resolution == old(self)@.resolution,
            final(self)@.anchor == Some(anchor_after(old(self)@, packet_timestamp_ms, elapsed@)),
            r@ == playback_time(old(self)@, packet_timestamp_ms, elapsed@),
    {
        let now = self.current_time(elapsed);
        let anchor = match self.anchor {
            Some(a) => a,
            None => {
                let a = Anchor { timestamp_ms: packet_timestamp_ms, local_offset: now };
                self.anchor = Some(a);
                a
            },
        };
        if packet_timestamp_ms >= anchor.timestamp_ms {
            let delta_ms = packet_timestamp_ms - anchor.timestamp_ms;
            let placed = anchor.local_offset.add(TimeSpan::from_millis(delta_ms));
            self.quantize(placed)
        } else {
            anchor.local_offset
        }
    }

    /// The playback deadline of a packet: its expected playback moment plus
    /// `latency`.
    pub fn calculate_deadline(&mut self, packet_timestamp_ms: u64, latency: TimeSpan, elapsed: TimeSpan) -> (r:
        TimeSpan)
        requires
            old(self).wf(),
            placement_fits(old(self)@, packet_timestamp_ms, elapsed@),
            playback_time(old(self)@, packet_timestamp_ms, elapsed@) + latency@ <= MAX_NANOS,
        ensures
            final(self).wf(),
            final(self)@.resolution == old(self)@.resolution,
            final(self)@.anchor == Some(anchor_after(old(self)@, packet_timestamp_ms, elapsed@)),
            r@ == playback_time(old(self)@, packet_timestamp_ms, elapsed@) + latency@,
    {
        let expected = self.expected_playback_time(packet_timestamp_ms, elapsed);
        expected.add(latency)
    }

    /// Clears the anchor; the caller restarts its elapsed-time clock.
    /// Never fails.
    pub fn reset(&mut self) -> (r: Result<(), SchedulerError>)
        requires
            old(self).wf(),
        ensures
            final(self).wf(),
            r is Ok,
            final(self)@.resolution == old(self)@.resolution,
            final(self)@.anchor is None,
    {
        self.anchor = None;
        Ok(())
    }
}

/// Once anchored, the timeline is stable: placing a timestamp never moves
/// the anchor again, and timestamps at or after the anchor keep their
/// capture-time distance (up to quantization).
pub proof fn lemma_anchor_stable(m: TimelineModel, ts: u64, elapsed: nat, other_ts: u64, later: nat)
    requires
        m.anchor is Some,
    ensures
        anchor_after(m, ts, elapsed) == m.anchor->0,
        anchor_after(TimelineModel { anchor: Some(anchor_after(m, ts, elapsed)), ..m }, other_ts, later)
            == m.anchor->0,
{
}

/// Timestamps captured before the anchor are placed at the anchor itself.
pub proof fn lemma_early_timestamp_clamps(m: TimelineModel, ts: u64, elapsed: nat)
    requires
        ts < anchor_after(m, ts, elapsed).0,
    ensures
        playback_time(m, ts, elapsed) == anchor_after(m, ts, elapsed).1,
{
}

/// A timeline reading is the reading rounded down to a whole number of
/// steps: never later than the reading, less than one step (in
/// milliseconds) earlier, a whole number of milliseconds, and a multiple of
/// the step. (Stated for a step that does not truncate to zero, as in
/// every timeline, and where the reading's milliseconds fit a `u64`.)
pub proof fn lemma_quantize_rounds_down(resolution: nat, d: nat)
    requires
        step_ms(resolution) != 0,
        d / 1_000_000 <= u64::MAX,
    ensures
        ({
            let q: int = quantize(resolution, d) as int;
            let step: int = step_ms(resolution) as int;
            &&& step >= 1
            &&& q <= d
            &&& d < q + step * 1_000_000
            &&& q % 1_000_000 == 0
            &&& (q / 1_000_000) % step == 0
        }),
{
    let r = step_ms(resolution) as int;
    let ms: int = (d / 1_000_000) as int;
    assert(((d / 1_000_000) as u64) as int == ms);
    let k = ms / r;
    assert(k * r <= ms && ms < k * r + r) by (nonlinear_arith)
        requires
            r >= 1,
            k == ms / r,
            ms >= 0,
    ;
    assert(ms * 1_000_000 <= d && d < ms * 1_000_000 + 1_000_000);
    assert((k * r) * 1_000_000 <= ms * 1_000_000) by (nonlinear_arith)
        requires
            k * r <= ms,
    ;
    assert(ms * 1_000_000 < (k * r + r) * 1_000_000) by (nonlinear_arith)
        requires
            ms < k * r + r,
    ;
    assert((k * r) * 1_000_000 + r * 1_000_000 == (k * r + r) * 1_000_000) by (nonlinear_arith);
    assert(((k * r) * 1_000_000) % 1_000_000 == 0) by (nonlinear_arith);
    assert(((k * r) * 1_000_000) / 1_000_000 == k * r) by (nonlinear_arith);
    assert((k * r) % r == 0) by (nonlinear_arith)
        requires
            r >= 1,
    ;
    assert(millis_nanos(((ms as u64) / (r as u64)) * (r as u64)) == (k * r) * 1_000_000);
}

/// Later readings never give earlier timeline moments.
pub proof fn lemma_quantize_monotone(resolution: nat, d1: nat, d2: nat)
    requires
        step_ms(resolution) != 0,
        d1 <= d2,
        d2 / 1_000_000 <= u64::MAX,
    ensures
        quantize(resolution, d1) <= quantize(resolution, d2),
{
    let r = step_ms(resolution) as int;
    let a: int = (d1 / 1_000_000) as int;
    let b: int = (d2 / 1_000_000) as int;
    assert(a <= b) by (nonlinear_arith)
        requires
            d1 <= d2,
            a == d1 / 1_000_000,
            b == d2 / 1_000_000,
    ;
    assert((a / r) * r <= (b / r) * r) by (nonlinear_arith)
        requires
            a <= b,
            r >= 1,
            a >= 0,
    ;
    assert(((d1 / 1_000_000) as u64) as int == a);
    assert(((d2 / 1_000_000) as u64) as int == b);
}

/// Once anchored, packets captured later are never placed earlier: for
/// timestamps at or after the anchor's, the playback moment grows with the
/// capture timestamp. (Stated where the moments' milliseconds fit a
/// `u64`.)
pub proof fn lemma_playback_time_monotone(m: TimelineModel, ts1: u64, ts2: u64, elapsed: nat)
    requires
        step_ms(m.resolution) != 0,
        m.anchor matches Some(a) && a.0 <= ts1 <= ts2,
        unquantized_playback(m, ts2, elapsed) / 1_000_000 <= u64::MAX,
    ensures
        playback_time(m, ts1, elapsed) <= playback_time(m, ts2, elapsed),
{
    lemma_quantize_monotone(
        m.resolution,
        unquantized_playback(m, ts1, elapsed),
        unquantized_playback(m, ts2, elapsed),
    );
}

} // verus!
