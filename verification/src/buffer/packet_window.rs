//! Sequence-number bookkeeping for the jitter buffer. A `PacketWindow`
//! holds no packets: it decides whether a sequence number is admissible,
//! tracks the delivery watermark, remembers recently delivered sequence
//! numbers for duplicate detection, and counts in-order, reordered, lost,
//! duplicate and late packets.

use std::collections::{HashSet, VecDeque};

use vstd::prelude::*;

use crate::buffer::error::BufferError;

verus! {

broadcast use vstd::std_specs::hash::group_hash_axioms;

/// Point-in-time snapshot of a [`PacketWindow`]'s counters.
#[derive(Debug, Clone, Copy, PartialEq, Eq, Structural)]
pub struct WindowStatistics {
    /// Packets admitted exactly at the expected sequence number (or first).
    pub packets_in_order: u64,
    /// Packets admitted ahead of the expected sequence number.
    pub packets_reordered: u64,
    /// Sequence numbers skipped by deliveries, summed over all deliveries.
    pub packets_lost: u64,
    /// Packets rejected as already buffered, delivered or processed.
    pub duplicates_detected: u64,
    /// Packets admitted with a gap above the tolerated number of missing ones.
    pub late_packets: u64,
}

/// All counters zero.
pub open spec fn zero_statistics() -> WindowStatistics {
    WindowStatistics {
        packets_in_order: 0,
        packets_reordered: 0,
        packets_lost: 0,
        duplicates_detected: 0,
        late_packets: 0,
    }
}

impl Default for WindowStatistics {
    /// All counters zero.
    fn default() -> (r: Self)
        ensures
            r == zero_statistics(),
    {
        WindowStatistics {
            packets_in_order: 0,
            packets_reordered: 0,
            packets_lost: 0,
            duplicates_detected: 0,
            late_packets: 0,
        }
    }
}

/// The plain state of a [`PacketWindow`].
pub struct WindowModel {
    /// The next sequence number expected to be delivered; `None` before the
    /// first delivery.
    pub expected: Option<u64>,
    /// Recently delivered sequence numbers, oldest first.
    pub cache: Seq<u64>,
    /// How many delivered sequence numbers are remembered.
    pub capacity: nat,
    /// Gap above which an admitted packet counts as late.
    pub max_missing: u64,
    /// The counters.
    pub stats: WindowStatistics,
}

/// How `admit` classifies a sequence number.
pub enum Admission {
    /// Still remembered as delivered: rejected as a duplicate.
    Remembered,
    /// Behind the watermark and forgotten: rejected as already processed.
    BehindWatermark,
    /// The first packet, or exactly the expected one.
    InOrder,
    /// Ahead of the expected one; `late` when the gap exceeds the tolerance.
    Ahead { late: bool },
}

/// The classification of `seq` in window `m`.
pub open spec fn admission(m: WindowModel, seq: u64) -> Admission {
    if m.cache.contains(seq) {
        Admission::Remembered
    } else {
        match m.expected {
            None => Admission::InOrder,
            Some(e) => if seq < e {
                Admission::BehindWatermark
            } else if seq == e {
                Admission::InOrder
            } else {
                Admission::Ahead { late: seq - e > m.max_missing }
            },
        }
    }
}

/// The result of `admit(seq)` in window `m`.
pub open spec fn admit_result(m: WindowModel, seq: u64) -> Result<(), BufferError> {
    match admission(m, seq) {
        Admission::Remembered => Err(BufferError::DuplicatePacket { sequence_number: seq }),
        Admission::BehindWatermark => Err(BufferError::AlreadyProcessed { sequence_number: seq }),
        _ => Ok(()),
    }
}

/// The counter `admit(seq)` increments has room for one more.
pub open spec fn admit_fits(m: WindowModel, seq: u64) -> bool {
    match admission(m, seq) {
        Admission::Remembered => m.stats.duplicates_detected < u64::MAX,
        Admission::BehindWatermark => m.stats.duplicates_detected < u64::MAX,
        Admission::InOrder => m.stats.packets_in_order < u64::MAX,
        Admission::Ahead { late } => m.stats.packets_reordered < u64::MAX && (late
            ==> m.stats.late_packets < u64::MAX),
    }
}

/// The counters after `admit(seq)`.
pub open spec fn stats_after_admit(m: WindowModel, seq: u64) -> WindowStatistics {
    let s = m.stats;
    match admission(m, seq) {
        Admission::Remembered => WindowStatistics {
            duplicates_detected: (s.duplicates_detected + 1) as u64,
            ..s
        },
        Admission::BehindWatermark => WindowStatistics {
            duplicates_detected: (s.duplicates_detected + 1) as u64,
            ..s
        },
        Admission::InOrder => WindowStatistics { packets_in_order: (s.packets_in_order + 1) as u64, ..s },
        Admission::Ahead { late } => WindowStatistics {
            packets_reordered: (s.packets_reordered + 1) as u64,
            late_packets: if late {
                (s.late_packets + 1) as u64
            } else {
                s.late_packets
            },
            ..s
        },
    }
}

/// The counters with one more duplicate detected.
pub open spec fn stats_with_duplicate(s: WindowStatistics) -> WindowStatistics {
    WindowStatistics { duplicates_detected: (s.duplicates_detected + 1) as u64, ..s }
}

/// Sequence numbers skipped when `seq` is delivered.
pub open spec fn lost_on_advance(m: WindowModel, seq: u64) -> u64 {
    match m.expected {
        Some(e) => if seq > e {
            (seq - e) as u64
        } else {
            0
        },
        None => 0,
    }
}

/// `seq + 1`, saturating at `u64::MAX`.
pub open spec fn successor(seq: u64) -> u64 {
    if seq == u64::MAX {
        seq
    } else {
        (seq + 1) as u64
    }
}

/// The watermark after delivering `seq`: never moves backwards.
pub open spec fn expected_after_advance(m: WindowModel, seq: u64) -> u64 {
    match m.expected {
        Some(e) => if e >= successor(seq) {
            e
        } else {
            successor(seq)
        },
        None => successor(seq),
    }
}

/// The remembered sequence numbers after delivering `seq`: appended when
/// new, with the oldest forgotten once more than `capacity` are held;
/// nothing is remembered when the capacity is zero.
pub open spec fn cache_after_advance(m: WindowModel, seq: u64) -> Seq<u64> {
    if m.capacity == 0 || m.cache.contains(seq) {
        m.cache
    } else if m.cache.len() + 1 > m.capacity {
        m.cache.push(seq).drop_first()
    } else {
        m.cache.push(seq)
    }
}

/// The window after delivering `seq`.
pub open spec fn advance_model(m: WindowModel, seq: u64) -> WindowModel {
    WindowModel {
        expected: Some(expected_after_advance(m, seq)),
        cache: cache_after_advance(m, seq),
        stats: WindowStatistics {
            packets_lost: (m.stats.packets_lost + lost_on_advance(m, seq)) as u64,
            ..m.stats
        },
        ..m
    }
}

/// A fresh window.
pub open spec fn fresh_model(capacity: nat, max_missing: u64) -> WindowModel {
    WindowModel {
        expected: None,
        cache: Seq::empty(),
        capacity,
        max_missing,
        stats: zero_statistics(),
    }
}

/// A window's state is consistent: the remembered numbers are distinct
/// and at most `capacity` of them.
pub open spec fn model_wf(m: WindowModel) -> bool {
    &&& m.cache.no_duplicates()
    &&& m.cache.len() <= m.capacity
}

/// Tracks expected sequence numbers, detects loss and duplicates, and
/// reports statistics for a single packet stream.
#[derive(Debug)]
pub struct PacketWindow {
    expected_sequence: Option<u64>,
    seen_cache: VecDeque<u64>,
    seen_set: HashSet<u64>,
    cache_capacity: usize,
    max_missing_packets: u64,
    stats: WindowStatistics,
}

impl View for PacketWindow {
    type V = WindowModel;

    closed spec fn view(&self) -> WindowModel {
        WindowModel {
            expected: self.expected_sequence,
            cache: self.seen_cache@,
            capacity: self.cache_capacity as nat,
            max_missing: self.max_missing_packets,
            stats: self.stats,
        }
    }
}

impl PacketWindow {
    /// The window's internal representation agrees with its model.
    pub closed spec fn wf(&self) -> bool {
        &&& model_wf(self@)
        &&& self.seen_set@ == self.seen_cache@.to_set()
    }

    /// A new, empty window remembering up to `cache_capacity` delivered
    /// sequence numbers.
    pub fn new(cache_capacity: usize, max_missing_packets: u64) -> (r: Self)
        ensures
            r.wf(),
            r@ == fresh_model(cache_capacity as nat, max_missing_packets),
    {
        let pre_size = if cache_capacity < 1024 {
            cache_capacity
        } else {
            1024
        };
        let r = PacketWindow {
            expected_sequence: None,
            seen_cache: VecDeque::with_capacity(pre_size),
            seen_set: HashSet::with_capacity(pre_size),
            cache_capacity,
            max_missing_packets,
            stats: WindowStatistics::default(),
        };
        assert(r.seen_set@ =~= r.seen_cache@.to_set());
        r
    }

    /// Decides whether a packet with `sequence_number` may be admitted:
    /// `DuplicatePacket` when it is still remembered as delivered,
    /// `AlreadyProcessed` when it lies behind the watermark, otherwise
    /// admitted and counted as in order, reordered, and possibly late.
    /// Only the counters change.
    pub fn admit_sequence(&mut self, sequence_number: u64) -> (r: Result<(), BufferError>)
        requires
            old(self).wf(),
            admit_fits(old(self)@, sequence_number),
        ensures
            final(self).wf(),
            r == admit_result(old(self)@, sequence_number),
            final(self)@ == (WindowModel {
                stats: stats_after_admit(old(self)@, sequence_number),
                ..old(self)@
            }),
    {
        if self.seen_set.contains(&sequence_number) {
            self.stats.duplicates_detected = self.stats.duplicates_detected + 1;
            return Err(BufferError::DuplicatePacket { sequence_number });
        }
        if let Some(expected) = self.expected_sequence {
            if sequence_number < expected {
                self.stats.duplicates_detected = self.stats.duplicates_detected + 1;
                return Err(BufferError::AlreadyProcessed { sequence_number });
            } else if sequence_number == expected {
                self.stats.packets_in_order = self.stats.packets_in_order + 1;
            } else {
                self.stats.packets_reordered = self.stats.packets_reordered + 1;
                if sequence_number - expected > self.max_missing_packets {
                    self.stats.late_packets = self.stats.late_packets + 1;
                }
            }
        } else {
            self.stats.packets_in_order = self.stats.packets_in_order + 1;
        }
        Ok(())
    }

    /// Counts one more rejected duplicate, found outside the window (a
    /// packet still buffered).
    pub fn record_duplicate(&mut self)
        requires
            old(self).wf(),
            old(self)@.stats.duplicates_detected < u64::MAX,
        ensures
            final(self).wf(),
            final(self)@ == (WindowModel { stats: stats_with_duplicate(old(self)@.stats), ..old(self)@ }),
    {
        self.stats.duplicates_detected = self.stats.duplicates_detected + 1;
    }

    /// Records that `sequence_number` was delivered: moves the watermark
    /// to just past it (never backwards), remembers it, and returns how many
    /// sequence numbers the delivery skipped (counted as lost).
    pub fn advance(&mut self, sequence_number: u64) -> (lost: u64)
        requires
            old(self).wf(),
            old(self)@.stats.packets_lost + lost_on_advance(old(self)@, sequence_number) <= u64::MAX,
        ensures
            final(self).wf(),
            lost == lost_on_advance(old(self)@, sequence_number),
            final(self)@ == advance_model(old(self)@, sequence_number),
    {
        let lost = match self.expected_sequence {
            Some(expected) => if sequence_number > expected {
                sequence_number - expected
            } else {
                0
            },
            None => 0,
        };
        self.stats.packets_lost = self.stats.packets_lost + lost;
        let next_expected = sequence_number.saturating_add(1);
        self.expected_sequence = Some(
            match self.expected_sequence {
                Some(expected) => if expected >= next_expected {
                    expected
                } else {
                    next_expected
                },
                None => next_expected,
            },
        );
        self.remember(sequence_number);
        lost
    }

    /// Remembers `sequence_number` in the bounded duplicate cache,
    /// forgetting the oldest entry once the cache is over capacity.
    fn remember(&mut self, sequence_number: u64)
        requires
            old(self).wf(),
        ensures
            final(self).wf(),
            final(self)@ == (WindowModel {
                cache: cache_after_advance(old(self)@, sequence_number),
                ..old(self)@
            }),
    {
        if self.cache_capacity == 0 {
            return;
        }
        let ghost old_cache = self.seen_cache@;
        if self.seen_set.insert(sequence_number) {
            self.seen_cache.push_back(sequence_number);
            assert(self.seen_set@ =~= self.seen_cache@.to_set()) by {
                broadcast use vstd::seq_lib::group_seq_properties;
            }
            assert(self.seen_cache@.no_duplicates()) by {
                assert forall|i: int, j: int|
                    0 <= i < self.seen_cache@.len() && 0 <= j < self.seen_cache@.len() && i != j
                    implies self.seen_cache@[i] != self.seen_cache@[j] by {
                    if i < old_cache.len() && j < old_cache.len() {
                    } else if i == old_cache.len() {
                        assert(old_cache.contains(self.seen_cache@[j]));
                    } else {
                        assert(old_cache.contains(self.seen_cache@[i]));
                    }
                }
            }
            if self.seen_cache.len() > self.cache_capacity {
                let ghost pushed = self.seen_cache@;
                if let Some(oldest) = self.seen_cache.pop_front() {
                    self.seen_set.remove(&oldest);
                    assert(self.seen_cache@ =~= pushed.drop_first());
                    assert(self.seen_set@ =~= self.seen_cache@.to_set()) by {
                        assert forall|x: u64| self.seen_set@.contains(x) <==> self.seen_cache@.contains(x) by {
                            if self.seen_cache@.contains(x) {
                                let k = choose|k: int| 0 <= k < self.seen_cache@.len() && self.seen_cache@[k] == x;
                                assert(pushed[k + 1] == x);
                                assert(pushed[0] != pushed[k + 1]);
                                assert(pushed.contains(x));
                            }
                            if pushed.contains(x) && x != oldest {
                                let k = choose|k: int| 0 <= k < pushed.len() && pushed[k] == x;
                                assert(k != 0);
                                assert(self.seen_cache@[k - 1] == x);
                            }
                        }
                    }
                }
            }
        } else {
            assert(self.seen_set@ =~= old_cache.to_set());
        }
    }

    /// What every operation keeps: the window remembers each delivered
    /// number at most once, and never more of them than its capacity.
    pub proof fn lemma_wf_model(&self)
        requires
            self.wf(),
        ensures
            model_wf(self@),
            self@.cache.no_duplicates(),
            self@.cache.len() <= self@.capacity,
    {
    }

    /// The next sequence number the window expects to see delivered.
    pub fn expected_sequence(&self) -> (r: Option<u64>)
        ensures
            r == self@.expected,
    {
        self.expected_sequence
    }

    /// A snapshot of the window's counters.
    pub fn statistics(&self) -> (r: WindowStatistics)
        ensures
            r == self@.stats,
    {
        self.stats
    }

    /// Forgets the watermark, the remembered numbers and the counters,
    /// keeping capacity and tolerance.
    pub fn reset(&mut self)
        requires
            old(self).wf(),
        ensures
            final(self).wf(),
            final(self)@ == fresh_model(old(self)@.capacity, old(self)@.max_missing),
    {
        self.expected_sequence = None;
        self.seen_cache.clear();
        self.seen_set.clear();
        self.stats = WindowStatistics::default();
        assert(self.seen_set@ =~= self.seen_cache@.to_set());
    }
}

/// A delivered sequence number is refused when it arrives again right
/// after its delivery: as a duplicate while it is remembered, otherwise as
/// already processed. The one exception is `u64::MAX` in a window that
/// remembers nothing, since the watermark cannot move past it.
pub proof fn lemma_delivered_not_readmitted(m: WindowModel, seq: u64)
    requires
        model_wf(m),
        !(seq == u64::MAX && m.capacity == 0),
    ensures
        admit_result(advance_model(m, seq), seq) is Err,
{
    let after = advance_model(m, seq);
    if m.capacity > 0 {
        let cache = cache_after_advance(m, seq);
        if !m.cache.contains(seq) {
            let pushed = m.cache.push(seq);
            assert(pushed[pushed.len() - 1] == seq);
            if m.cache.len() + 1 > m.capacity {
                assert(cache[cache.len() - 1] == seq);
            }
            assert(cache.contains(seq));
        }
        assert(after.cache.contains(seq));
    } else {
        assert(expected_after_advance(m, seq) > seq);
    }
}

/// Every sequence number behind the watermark is refused.
pub proof fn lemma_behind_watermark_refused(m: WindowModel, seq: u64)
    requires
        m.expected matches Some(e) && seq < e,
    ensures
        admit_result(m, seq) is Err,
{
}

/// The watermark never moves backwards, and after a delivery it lies past
/// the delivered number (or at `u64::MAX`).
pub proof fn lemma_watermark_monotone(m: WindowModel, seq: u64)
    ensures
        advance_model(m, seq).expected matches Some(e2) && (m.expected matches Some(e1) ==> e1 <= e2)
            && (seq < e2 || e2 == u64::MAX),
{
}

/// Admitting a number, successful or not, never changes what the window
/// admits next: the watermark and the remembered numbers stay as they were.
pub proof fn lemma_admission_stable(m: WindowModel, seq: u64, other: u64)
    ensures
        admission(WindowModel { stats: stats_after_admit(m, seq), ..m }, other) == admission(m, other),
{
}

/// How a window answers a sequence number and what it counts: a number
/// still remembered as delivered is a duplicate; otherwise one behind the
/// watermark is already processed; any other is admitted. Each refusal
/// counts one duplicate; an admission at the watermark (or the very first)
/// counts one in-order packet, one ahead of it one reordered packet, and
/// one late packet too when the gap exceeds `max_missing`. Nothing else
/// changes.
pub proof fn lemma_admission_rules(m: WindowModel, seq: u64)
    requires
        admit_fits(m, seq),
    ensures
        ({
            let r = admit_result(m, seq);
            let s = m.stats;
            let t = stats_after_admit(m, seq);
            let ahead = (m.expected matches Some(e) && seq > e);
            let at_mark = m.expected is None || m.expected == Some(seq);
            &&& (r == Err::<(), BufferError>(BufferError::DuplicatePacket { sequence_number: seq }))
                <==> m.cache.contains(seq)
            &&& (r == Err::<(), BufferError>(BufferError::AlreadyProcessed { sequence_number: seq }))
                <==> (!m.cache.contains(seq) && (m.expected matches Some(e) && seq < e))
            &&& r is Ok <==> (!m.cache.contains(seq) && (m.expected matches Some(e) ==> e <= seq))
            &&& t.duplicates_detected == s.duplicates_detected + (if r is Err { 1int } else { 0int })
            &&& t.packets_in_order == s.packets_in_order + (if r is Ok && at_mark { 1int } else { 0int })
            &&& t.packets_reordered == s.packets_reordered + (if r is Ok && ahead { 1int } else { 0int })
            &&& t.late_packets == s.late_packets + (if r is Ok && (m.expected matches Some(e) && (seq > e
                && seq - e > m.max_missing)) { 1int } else { 0int })
            &&& t.packets_lost == s.packets_lost
        }),
{
}

/// What a delivery does to the window: the numbers between the watermark
/// and the delivered one count as lost, the watermark moves to just past
/// the delivered number unless it already lies further (saturating at
/// `u64::MAX`), and the delivered number is remembered when the cache has
/// room for any.
pub proof fn lemma_delivery_rules(m: WindowModel, seq: u64)
    requires
        model_wf(m),
    ensures
        ({
            let a = advance_model(m, seq);
            let next: int = if seq == u64::MAX { seq as int } else { seq + 1 };
            &&& lost_on_advance(m, seq) == (match m.expected {
                Some(e) => if seq > e { seq - e } else { 0int },
                None => 0int,
            })
            &&& a.expected == Some((match m.expected {
                Some(e) => if e >= next { e as int } else { next },
                None => next,
            }) as u64)
            &&& m.capacity > 0 ==> a.cache.contains(seq)
            &&& a.capacity == m.capacity
            &&& a.max_missing == m.max_missing
        }),
{
    if m.capacity > 0 && !m.cache.contains(seq) {
        let pushed = m.cache.push(seq);
        assert(pushed[pushed.len() - 1] == seq);
        if m.cache.len() + 1 > m.capacity {
            let c = pushed.drop_first();
            assert(c[c.len() - 1] == seq);
        }
    }
}

} // verus!
