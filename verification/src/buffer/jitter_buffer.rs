//! The single-threaded core of the Buffer Layer. A `JitterBuffer` stores
//! accepted packets in sequence order, holds each for the target delay
//! before releasing it, drops packets that overflow the buffer or grow
//! stale, adapts the target delay to the observed jitter, and consults a
//! [`PacketWindow`] on every arrival and delivery.
//!
//! Time is given by the caller: every operation that depends on it takes
//! `now`, a reading of a monotonic clock as a [`TimeSpan`] since a fixed
//! origin. The jitter estimate itself (a floating-point running mean) is
//! kept by the caller too, which hands in the headroom it calls for.

use vstd::prelude::*;

use crate::buffer::config::{config_error_message, config_valid, BufferConfig};
use crate::buffer::error::BufferError;
use crate::buffer::packet_window::{
    admit_fits, admit_result, advance_model, lost_on_advance, model_wf as window_model_wf,
    stats_after_admit, stats_with_duplicate, PacketWindow, WindowModel, WindowStatistics,
};
use crate::streaming::packet::AudioPacket;
use crate::time_span::{TimeSpan, MAX_NANOS};

verus! {

/// A buffered packet and the moment it was accepted.
#[derive(Debug)]
pub struct BufferedEntry {
    /// The packet, unmodified.
    pub packet: AudioPacket,
    /// When the packet was accepted.
    pub arrival: TimeSpan,
}

/// The sequence number an entry is stored under.
pub open spec fn key(e: BufferedEntry) -> u64 {
    e.packet.sequence_number
}

/// Entries are in strictly increasing sequence order.
pub open spec fn sorted(entries: Seq<BufferedEntry>) -> bool {
    forall|i: int, j: int| 0 <= i < j < entries.len() ==> key(entries[i]) < key(entries[j])
}

/// Some entry is stored under `seq`.
pub open spec fn holds_key(entries: Seq<BufferedEntry>, seq: u64) -> bool {
    exists|i: int| 0 <= i < entries.len() && key(entries[i]) == seq
}

/// Time elapsed from `since` to `now`, zero when `since` is later.
pub open spec fn elapsed(now: nat, since: nat) -> nat {
    if now >= since {
        (now - since) as nat
    } else {
        0
    }
}

/// An entry has been held longer than `max_age`.
pub open spec fn is_stale(e: BufferedEntry, now: nat, max_age: nat) -> bool {
    elapsed(now, e.arrival@) > max_age
}

/// The entries that are not stale, in their order.
pub open spec fn fresh_entries(entries: Seq<BufferedEntry>, now: nat, max_age: nat) -> Seq<
    BufferedEntry,
>
    decreases entries.len(),
{
    if entries.len() == 0 {
        entries
    } else {
        let rest = fresh_entries(entries.drop_last(), now, max_age);
        if is_stale(entries.last(), now, max_age) {
            rest
        } else {
            rest.push(entries.last())
        }
    }
}

/// `lo <= x <= hi`, moving `x` to the nearer bound otherwise.
pub open spec fn clamp(x: nat, lo: nat, hi: nat) -> nat {
    if x < lo {
        lo
    } else if x > hi {
        hi
    } else {
        x
    }
}

/// The delay the observed jitter calls for: the configured target delay
/// plus the headroom (saturating), within the configured bounds.
pub open spec fn adapt_candidate(c: BufferConfig, headroom: nat) -> nat {
    let sum = c.target_delay@ + headroom;
    clamp(
        if sum <= MAX_NANOS {
            sum
        } else {
            MAX_NANOS as nat
        },
        c.min_target_delay@,
        c.max_target_delay@,
    )
}

/// The target delay after one adaptive step from `target` toward the
/// candidate: at most `adaptive_step` up or down, never past the candidate,
/// within the configured bounds.
pub open spec fn adapted_delay(c: BufferConfig, target: nat, headroom: nat) -> nat {
    let candidate = adapt_candidate(c, headroom);
    let step = c.adaptive_step@;
    let stepped = if candidate > target {
        if target + step <= candidate {
            target + step
        } else {
            candidate
        }
    } else if candidate < target {
        let down: nat = if target >= step {
            (target - step) as nat
        } else {
            0
        };
        if down >= candidate {
            down
        } else {
            candidate
        }
    } else {
        target
    };
    clamp(stepped, c.min_target_delay@, c.max_target_delay@)
}

/// Point-in-time snapshot of a [`JitterBuffer`]'s counters.
#[derive(Debug, Clone, Copy, PartialEq, Eq, Structural)]
pub struct JitterBufferStatistics {
    /// Packets ever accepted.
    pub packets_buffered: u64,
    /// Packets ever released by `next_packet` or `flush`.
    pub packets_delivered: u64,
    /// Packets dropped by overflow or staleness.
    pub packets_dropped: u64,
    /// Most packets ever held at once.
    pub max_occupancy: usize,
    /// The sequence window's counters.
    pub window: WindowStatistics,
}

/// The plain state of a [`JitterBuffer`].
pub struct JitterModel {
    pub config: BufferConfig,
    pub entries: Seq<BufferedEntry>,
    pub window: WindowModel,
    pub target_delay: nat,
    pub buffered: u64,
    pub delivered: u64,
    pub dropped: u64,
    pub max_occupancy: usize,
}

/// Absorbs network jitter and delivers packets in playback order.
pub struct JitterBuffer {
    config: BufferConfig,
    /// The buffered packets in strictly increasing sequence order. A
    /// `Vec` kept sorted rather than a `BTreeMap`: vstd specifies no way to
    /// step a `BTreeMap`'s key or entry iterator, or to read its smallest
    /// key, which release, eviction and flushing all need.
    entries: Vec<BufferedEntry>,
    window: PacketWindow,
    target_delay: TimeSpan,
    packets_buffered_total: u64,
    packets_delivered_total: u64,
    packets_dropped_total: u64,
    max_occupancy: usize,
}

impl View for JitterBuffer {
    type V = JitterModel;

    closed spec fn view(&self) -> JitterModel {
        JitterModel {
            config: self.config,
            entries: self.entries@,
            window: self.window@,
            target_delay: self.target_delay@,
            buffered: self.packets_buffered_total,
            delivered: self.packets_delivered_total,
            dropped: self.packets_dropped_total,
            max_occupancy: self.max_occupancy,
        }
    }
}

/// The invariants of a buffer's state: valid configuration, sorted entries
/// within capacity, all at or past the watermark, the target delay within
/// its bounds, and a window configured from the buffer's configuration.
pub open spec fn model_wf(m: JitterModel) -> bool {
    &&& config_valid(m.config)
    &&& window_model_wf(m.window)
    &&& sorted(m.entries)
    &&& m.entries.len() <= m.config.max_buffer_size
    &&& m.entries.len() <= m.max_occupancy
    &&& m.config.min_target_delay@ <= m.target_delay <= m.config.max_target_delay@
    &&& m.window.capacity == m.config.duplicate_cache_size
    &&& m.window.max_missing == m.config.max_missing_packets
    &&& forall|i: int|
        0 <= i < m.entries.len() ==> (m.window.expected matches Some(e) ==> e <= key(
            #[trigger] m.entries[i],
        ))
}

/// `insert_packet` of a packet under `seq` with `headroom` stays within the
/// counters' range and the largest span.
pub open spec fn insert_fits(m: JitterModel, seq: u64, headroom: nat) -> bool {
    &&& holds_key(m.entries, seq) ==> m.window.stats.duplicates_detected < u64::MAX
    &&& !holds_key(m.entries, seq) ==> admit_fits(m.window, seq)
    &&& m.buffered < u64::MAX
    &&& m.dropped < u64::MAX
    &&& (m.config.adaptive_enabled && adapt_candidate(m.config, headroom) > m.target_delay)
        ==> m.target_delay + m.config.adaptive_step@ <= MAX_NANOS
}

/// The entries after an admitted arrival: the oldest dropped first when
/// the buffer is full.
pub open spec fn entries_before_insert(m: JitterModel) -> Seq<BufferedEntry> {
    if m.entries.len() >= m.config.max_buffer_size {
        m.entries.drop_first()
    } else {
        m.entries
    }
}

/// Releasing the first fresh entry at `now` stays within the counters'
/// range.
pub open spec fn next_fits(m: JitterModel, now: nat) -> bool {
    let fresh = fresh_entries(m.entries, now, m.config.max_packet_age@);
    &&& m.dropped + (m.entries.len() - fresh.len()) <= u64::MAX
    &&& m.delivered < u64::MAX
    &&& fresh.len() > 0 ==> m.window.stats.packets_lost + lost_on_advance(m.window, key(fresh[0]))
        <= u64::MAX
}

/// The window after delivering `seqs` in order.
pub open spec fn advance_all(w: WindowModel, seqs: Seq<u64>) -> WindowModel
    decreases seqs.len(),
{
    if seqs.len() == 0 {
        w
    } else {
        advance_model(advance_all(w, seqs.drop_last()), seqs.last())
    }
}

/// Delivering `seqs` in order keeps the loss counter within range.
pub open spec fn advance_all_fits(w: WindowModel, seqs: Seq<u64>) -> bool
    decreases seqs.len(),
{
    seqs.len() == 0 || (advance_all_fits(w, seqs.drop_last()) && advance_all(
        w,
        seqs.drop_last(),
    ).stats.packets_lost + lost_on_advance(advance_all(w, seqs.drop_last()), seqs.last())
        <= u64::MAX)
}

/// The sequence numbers of `entries`, in order.
pub open spec fn keys(entries: Seq<BufferedEntry>) -> Seq<u64> {
    entries.map_values(|e: BufferedEntry| key(e))
}

proof fn lemma_fresh_sub(entries: Seq<BufferedEntry>, now: nat, max_age: nat)
    requires
        sorted(entries),
    ensures
        sorted(fresh_entries(entries, now, max_age)),
        fresh_entries(entries, now, max_age).len() <= entries.len(),
        forall|k: int|
            0 <= k < fresh_entries(entries, now, max_age).len() ==> exists|j: int|
                0 <= j < entries.len() && #[trigger] fresh_entries(entries, now, max_age)[k]
                    == entries[j],
        forall|k: int|
            0 <= k < fresh_entries(entries, now, max_age).len() ==> !is_stale(
                #[trigger] fresh_entries(entries, now, max_age)[k],
                now,
                max_age,
            ),
    decreases entries.len(),
{
    if entries.len() > 0 {
        let rest = entries.drop_last();
        assert(sorted(rest));
        lemma_fresh_sub(rest, now, max_age);
        let fr = fresh_entries(rest, now, max_age);
        if !is_stale(entries.last(), now, max_age) {
            let f = fr.push(entries.last());
            assert forall|i: int, j: int| 0 <= i < j < f.len() implies key(f[i]) < key(f[j]) by {
                if j == f.len() - 1 {
                    let jj = choose|jj: int| 0 <= jj < rest.len() && fr[i] == rest[jj];
                    assert(key(rest[jj]) < key(entries[entries.len() - 1]));
                }
            }
            assert forall|k: int| 0 <= k < f.len() implies exists|j: int|
                0 <= j < entries.len() && #[trigger] f[k] == entries[j] by {
                if k == f.len() - 1 {
                    assert(f[k] == entries[entries.len() - 1]);
                } else {
                    let jj = choose|jj: int| 0 <= jj < rest.len() && fr[k] == rest[jj];
                    assert(f[k] == entries[jj]);
                }
            }
        } else {
            assert forall|k: int| 0 <= k < fr.len() implies exists|j: int|
                0 <= j < entries.len() && #[trigger] fr[k] == entries[j] by {
                let jj = choose|jj: int| 0 <= jj < rest.len() && fr[k] == rest[jj];
                assert(fr[k] == entries[jj]);
            }
        }
    }
}

proof fn lemma_stale_count_monotone(s: Seq<BufferedEntry>, j: int, now: nat, max_age: nat)
    requires
        0 <= j <= s.len(),
    ensures
        j - fresh_entries(s.take(j), now, max_age).len() <= s.len() - fresh_entries(s, now, max_age).len(),
        fresh_entries(s.take(j), now, max_age).len() <= j,
    decreases s.len(),
{
    if s.len() > 0 {
        if j == s.len() {
            assert(s.take(j) =~= s);
            lemma_stale_count_monotone(s.drop_last(), j - 1, now, max_age);
            assert(s.take(j - 1) =~= s.drop_last().take(j - 1));
        } else {
            lemma_stale_count_monotone(s.drop_last(), j, now, max_age);
            assert(s.take(j) =~= s.drop_last().take(j));
        }
    } else {
        assert(s.take(j) =~= s);
    }
}

proof fn lemma_fits_prefix(w: WindowModel, s: Seq<u64>, i: int)
    requires
        advance_all_fits(w, s),
        0 <= i <= s.len(),
    ensures
        advance_all_fits(w, s.take(i)),
    decreases s.len(),
{
    if i == s.len() {
        assert(s.take(i) =~= s);
    } else {
        assert(s.take(i) =~= s.drop_last().take(i));
        lemma_fits_prefix(w, s.drop_last(), i);
    }
}

proof fn lemma_advance_all_keeps_shape(w: WindowModel, s: Seq<u64>)
    ensures
        advance_all(w, s).capacity == w.capacity,
        advance_all(w, s).max_missing == w.max_missing,
    decreases s.len(),
{
    if s.len() > 0 {
        lemma_advance_all_keeps_shape(w, s.drop_last());
    }
}

/// Whether some entry is stored under `seq`.
fn holds_sequence(entries: &Vec<BufferedEntry>, seq: u64) -> (r: bool)
    ensures
        r == holds_key(entries@, seq),
{
    let mut i: usize = 0;
    while i < entries.len()
        invariant
            i <= entries.len(),
            forall|j: int| 0 <= j < i ==> key(entries@[j]) != seq,
        decreases entries.len() - i,
    {
        if entries[i].packet.sequence_number == seq {
            return true;
        }
        i = i + 1;
    }
    false
}

/// Inserts `e` into sorted `entries` at its place in sequence order.
fn insert_sorted(entries: &mut Vec<BufferedEntry>, e: BufferedEntry)
    requires
        sorted(old(entries)@),
        !holds_key(old(entries)@, key(e)),
    ensures
        sorted(final(entries)@),
        exists|pos: int| 0 <= pos <= old(entries)@.len() && final(entries)@ == old(entries)@.insert(pos, e),
        forall|j: int| 0 <= j < final(entries)@.len() ==> #[trigger] final(entries)@[j] == e
            || old(entries)@.contains(final(entries)@[j]),
{
    let ghost base = entries@;
    let seq = e.packet.sequence_number;
    let mut pos: usize = 0;
    while pos < entries.len() && entries[pos].packet.sequence_number < seq
        invariant
            entries@ == base,
            sorted(base),
            pos <= base.len(),
            forall|j: int| 0 <= j < pos ==> key(base[j]) < seq,
        decreases base.len() - pos,
    {
        pos = pos + 1;
    }
    proof {
        assert forall|j: int| pos <= j < base.len() implies key(base[j]) > seq by {
            assert(key(base[pos as int]) >= seq);
            assert(key(base[pos as int]) != seq);
            if j > pos {
                assert(key(base[pos as int]) < key(base[j]));
            }
        }
    }
    entries.insert(pos, e);
    proof {
        let f = entries@;
        assert(f == base.insert(pos as int, e));
        assert forall|a: int, b: int| 0 <= a < b < f.len() implies key(f[a]) < key(f[b]) by {
            if b < pos {
            } else if a < pos && b == pos {
            } else if a < pos {
                assert(f[b] == base[b - 1]);
            } else if a == pos {
                assert(f[b] == base[b - 1]);
            } else {
                assert(f[a] == base[a - 1]);
                assert(f[b] == base[b - 1]);
            }
        }
        assert forall|j: int| 0 <= j < f.len() implies #[trigger] f[j] == e || base.contains(f[j]) by {
            if j < pos {
                assert(f[j] == base[j]);
            } else if j > pos {
                assert(f[j] == base[j - 1]);
            }
        }
    }
}

impl JitterBuffer {
    /// The buffer's internal state satisfies its invariants.
    pub closed spec fn wf(&self) -> bool {
        &&& model_wf(self@)
        &&& self.window.wf()
    }

    /// What every operation keeps: the packets are held in strictly
    /// increasing sequence order, never more than `max_buffer_size` of them,
    /// none behind the window's watermark, and the target delay lies within
    /// the configured bounds.
    pub proof fn lemma_invariants(&self)
        requires
            self.wf(),
        ensures
            model_wf(self@),
            sorted(self@.entries),
            self@.entries.len() <= self@.config.max_buffer_size,
            self@.config.min_target_delay@ <= self@.target_delay <= self@.config.max_target_delay@,
    {
    }

    /// A new, empty buffer; fails with `InvalidConfiguration` when `config`
    /// does not validate.
    pub fn new(config: BufferConfig) -> (r: Result<Self, BufferError>)
        ensures
            r is Ok <==> config_valid(config),
            r matches Err(e) ==> e matches BufferError::InvalidConfiguration(m) && m@
                == config_error_message(config),
            r matches Ok(b) ==> {
                &&& b.wf()
                &&& b@.config == config
                &&& b@.entries.len() == 0
                &&& b@.window == crate::buffer::packet_window::fresh_model(
                    config.duplicate_cache_size as nat,
                    config.max_missing_packets,
                )
                &&& b@.target_delay == config.target_delay@
                &&& b@.buffered == 0
                &&& b@.delivered == 0
                &&& b@.dropped == 0
                &&& b@.max_occupancy == 0
            },
    {
        match config.validate() {
            Err(e) => Err(e),
            Ok(()) => {
                let window = PacketWindow::new(config.duplicate_cache_size, config.max_missing_packets);
                let target_delay = config.target_delay;
                Ok(JitterBuffer {
                    config,
                    entries: Vec::new(),
                    window,
                    target_delay,
                    packets_buffered_total: 0,
                    packets_delivered_total: 0,
                    packets_dropped_total: 0,
                    max_occupancy: 0,
                })
            },
        }
    }

    /// Accepts a packet that arrived at `now`, storing it in sequence
    /// order. Refuses a sequence number already buffered
    /// (`DuplicatePacket`, counted as a detected duplicate), and whatever the window refuses (a delivered
    /// number still remembered, or one behind the watermark). When the
    /// buffer is full the oldest buffered packet is dropped to make room.
    /// With adaptation enabled, the target delay then moves one step toward
    /// the configured delay plus `jitter_headroom` (the headroom the current
    /// jitter estimate, including this arrival, calls for).
    pub fn insert_packet(&mut self, packet: AudioPacket, now: TimeSpan, jitter_headroom: TimeSpan) -> (r:
        Result<(), BufferError>)
        requires
            old(self).wf(),
            insert_fits(old(self)@, packet.sequence_number, jitter_headroom@),
        ensures
            final(self).wf(),
            releases_above(old(self)@.window, final(self)@.window, Seq::<u64>::empty()),
            ({
                let m = old(self)@;
                let f = final(self)@;
                let seq = packet.sequence_number;
                if holds_key(m.entries, seq) {
                    &&& r == Err::<(), BufferError>(BufferError::DuplicatePacket { sequence_number: seq })
                    &&& f == JitterModel {
                        window: WindowModel { stats: stats_with_duplicate(m.window.stats), ..m.window },
                        ..m
                    }
                } else if admit_result(m.window, seq) is Err {
                    &&& r == admit_result(m.window, seq)
                    &&& f == JitterModel {
                        window: WindowModel { stats: stats_after_admit(m.window, seq), ..m.window },
                        ..m
                    }
                } else {
                    let base = entries_before_insert(m);
                    &&& r is Ok
                    &&& f.config == m.config
                    &&& sorted(f.entries)
                    &&& exists|pos: int| 0 <= pos <= base.len() && f.entries == base.insert(pos, BufferedEntry { packet, arrival: now })
                    &&& f.window == WindowModel { stats: stats_after_admit(m.window, seq), ..m.window }
                    &&& f.buffered == m.buffered + 1
                    &&& f.dropped == m.dropped + (if m.entries.len() >= m.config.max_buffer_size { 1int } else { 0int })
                    &&& f.delivered == m.delivered
                    &&& f.max_occupancy == (if f.entries.len() > m.max_occupancy { f.entries.len() as int } else { m.max_occupancy as int })
                    &&& f.target_delay == (if m.config.adaptive_enabled {
                        adapted_delay(m.config, m.target_delay, jitter_headroom@)
                    } else {
                        m.target_delay
                    })
                }
            }),
    {
        let sequence_number = packet.sequence_number;
        let ghost m = self@;
        if holds_sequence(&self.entries, sequence_number) {
            self.window.record_duplicate();
            return Err(BufferError::DuplicatePacket { sequence_number });
        }
        let admitted = self.window.admit_sequence(sequence_number);
        if let Err(e) = admitted {
            return Err(e);
        }
        if self.entries.len() >= self.config.max_buffer_size {
            // Buffer overflow: drop the oldest buffered packet.
            let _dropped = self.entries.remove(0);
            self.packets_dropped_total = self.packets_dropped_total + 1;
        }
        let ghost base = self.entries@;
        proof {
            assert(base == entries_before_insert(m));
            assert forall|k: int| 0 <= k < base.len() implies m.entries.contains(#[trigger] base[k]) by {
                let kk = if m.entries.len() >= m.config.max_buffer_size { k + 1 } else { k };
                assert(base[k] == m.entries[kk]);
            }
            assert(sorted(base)) by {
                assert forall|x: int, y: int| 0 <= x < y < base.len() implies key(base[x]) < key(base[y]) by {
                    if m.entries.len() >= m.config.max_buffer_size {
                        assert(base[x] == m.entries[x + 1]);
                        assert(base[y] == m.entries[y + 1]);
                    }
                }
            }
            assert(!holds_key(base, sequence_number)) by {
                if holds_key(base, sequence_number) {
                    let k = choose|k: int| 0 <= k < base.len() && key(base[k]) == sequence_number;
                    assert(m.entries.contains(base[k]));
                }
            }
        }
        insert_sorted(&mut self.entries, BufferedEntry { packet, arrival: now });
        self.packets_buffered_total = self.packets_buffered_total + 1;
        if self.entries.len() > self.max_occupancy {
            self.max_occupancy = self.entries.len();
        }
        proof {
            let e = self.entries@;
            assert forall|j: int| 0 <= j < e.len() implies (self.window@.expected matches Some(x) ==> x <= key(#[trigger] e[j])) by {
                if e[j] != (BufferedEntry { packet, arrival: now }) {
                    assert(base.contains(e[j]));
                    assert(m.entries.contains(e[j]));
                }
            }
        }
        if self.config.adaptive_enabled {
            self.adapt_target_delay(jitter_headroom);
        }
        Ok(())
    }

    /// Moves the target delay one step toward the configured delay plus
    /// `jitter_headroom`, within the configured bounds.
    fn adapt_target_delay(&mut self, jitter_headroom: TimeSpan)
        requires
            old(self).wf(),
            adapt_candidate(old(self)@.config, jitter_headroom@) > old(self)@.target_delay
                ==> old(self)@.target_delay + old(self)@.config.adaptive_step@ <= MAX_NANOS,
        ensures
            final(self).wf(),
            final(self)@ == (JitterModel {
                target_delay: adapted_delay(old(self)@.config, old(self)@.target_delay, jitter_headroom@),
                ..old(self)@
            }),
    {
        let min = self.config.min_target_delay;
        let max = self.config.max_target_delay;
        let candidate = self.config.target_delay.saturating_add(jitter_headroom).clamp(min, max);
        let step = self.config.adaptive_step;
        let current = self.target_delay;
        let stepped = if candidate.as_nanos() > current.as_nanos() {
            current.add(step).min(candidate)
        } else if candidate.as_nanos() < current.as_nanos() {
            current.saturating_sub(step).max(candidate)
        } else {
            current
        };
        self.target_delay = stepped.clamp(min, max);
    }

    /// Drops every buffered packet held longer than `max_packet_age` at
    /// `now`, counting each as dropped.
    fn evict_stale(&mut self, now: TimeSpan)
        requires
            old(self).wf(),
            old(self)@.dropped + (old(self)@.entries.len() - fresh_entries(
                old(self)@.entries,
                now@,
                old(self)@.config.max_packet_age@,
            ).len()) <= u64::MAX,
        ensures
            final(self).wf(),
            final(self)@ == (JitterModel {
                entries: fresh_entries(old(self)@.entries, now@, old(self)@.config.max_packet_age@),
                dropped: (old(self)@.dropped + (old(self)@.entries.len() - fresh_entries(
                    old(self)@.entries,
                    now@,
                    old(self)@.config.max_packet_age@,
                ).len())) as u64,
                ..old(self)@
            }),
    {
        let ghost m = self@;
        let ghost orig = m.entries;
        let ghost age = m.config.max_packet_age@;
        let max_age = self.config.max_packet_age;
        let mut i: usize = 0;
        let ghost mut j: int = 0;
        proof {
            assert(orig.take(0) =~= Seq::<BufferedEntry>::empty());
            assert(orig.skip(0) =~= orig);
            lemma_stale_count_monotone(orig, 0, now@, age);
        }
        while i < self.entries.len()
            invariant
                self.config == m.config,
                max_age == m.config.max_packet_age,
                max_age@ == age,
                age == m.config.max_packet_age@,
                self.window == old(self).window,
                self.target_delay@ == m.target_delay,
                self.packets_buffered_total == m.buffered,
                self.packets_delivered_total == m.delivered,
                self.max_occupancy == m.max_occupancy,
                0 <= j <= orig.len(),
                self.entries@ == fresh_entries(orig.take(j), now@, age) + orig.skip(j),
                i == fresh_entries(orig.take(j), now@, age).len(),
                self.packets_dropped_total == m.dropped + (j - i),
                m.dropped + (orig.len() - fresh_entries(orig, now@, age).len()) <= u64::MAX,
                j - i <= orig.len() - fresh_entries(orig, now@, age).len(),
                sorted(orig),
            decreases orig.len() - j,
        {
            proof {
                assert(orig.take(j + 1).drop_last() =~= orig.take(j));
                assert(orig.take(j + 1).last() == orig[j]);
                assert(self.entries@[i as int] == orig[j]);
                assert(orig.skip(j) =~= seq![orig[j]] + orig.skip(j + 1));
                lemma_stale_count_monotone(orig, j + 1, now@, age);
            }
            let arrival = self.entries[i].arrival;
            let elapsed_now = now.saturating_sub(arrival);
            proof {
                assert((fresh_entries(orig.take(j), now@, age) + orig.skip(j))[i as int] == orig.skip(j)[0]);
                assert(arrival == orig[j].arrival);
                assert(max_age@ == age);
                assert(elapsed_now@ == elapsed(now@, arrival@));
            }
            if elapsed_now.as_nanos() > max_age.as_nanos() {
                proof {
                    assert(is_stale(orig[j], now@, age));
                    assert(fresh_entries(orig.take(j + 1), now@, age) == fresh_entries(orig.take(j), now@, age));
                }
                let _stale = self.entries.remove(i);
                self.packets_dropped_total = self.packets_dropped_total + 1;
                proof {
                    assert(self.entries@ =~= fresh_entries(orig.take(j + 1), now@, age) + orig.skip(j + 1));
                    j = j + 1;
                }
            } else {
                proof {
                    assert(!is_stale(orig[j], now@, age));
                    assert(fresh_entries(orig.take(j + 1), now@, age) == fresh_entries(orig.take(j), now@, age).push(orig[j]));
                }
                i = i + 1;
                proof {
                    assert(self.entries@ =~= fresh_entries(orig.take(j + 1), now@, age) + orig.skip(j + 1));
                    j = j + 1;
                }
            }
        }
        proof {
            assert(j == orig.len());
            assert(orig.take(j) =~= orig);
            assert(orig.skip(j) =~= Seq::<BufferedEntry>::empty());
            assert(self.entries@ =~= fresh_entries(orig, now@, age));
            lemma_fresh_sub(orig, now@, age);
            let f = self.entries@;
            assert forall|k: int| 0 <= k < f.len() implies (self.window@.expected matches Some(x) ==> x <= key(#[trigger] f[k])) by {
                let jj = choose|jj: int| 0 <= jj < orig.len() && f[k] == orig[jj];
            }
        }
    }

    /// Drops stale packets, then releases the first buffered packet in
    /// sequence order when it has been held for at least the target delay
    /// at `now`. `Ok(None)` means nothing is ready: the buffer is empty or
    /// the first packet has not waited long enough. Never fails.
    pub fn next_packet(&mut self, now: TimeSpan) -> (r: Result<Option<AudioPacket>, BufferError>)
        requires
            old(self).wf(),
            next_fits(old(self)@, now@),
        ensures
            final(self).wf(),
            releases_above(
                old(self)@.window,
                final(self)@.window,
                match r {
                    Ok(Some(p)) => seq![p.sequence_number],
                    _ => Seq::<u64>::empty(),
                },
            ),
            ({
                let m = old(self)@;
                let f = final(self)@;
                let fresh = fresh_entries(m.entries, now@, m.config.max_packet_age@);
                &&& f.config == m.config
                &&& f.target_delay == m.target_delay
                &&& f.buffered == m.buffered
                &&& f.max_occupancy == m.max_occupancy
                &&& f.dropped == m.dropped + (m.entries.len() - fresh.len())
                &&& if fresh.len() > 0 && elapsed(now@, fresh[0].arrival@) >= m.target_delay {
                    &&& r == Ok::<Option<AudioPacket>, BufferError>(Some(fresh[0].packet))
                    &&& f.entries == fresh.drop_first()
                    &&& f.window == advance_model(m.window, key(fresh[0]))
                    &&& f.delivered == m.delivered + 1
                } else {
                    &&& r == Ok::<Option<AudioPacket>, BufferError>(None)
                    &&& f.entries == fresh
                    &&& f.window == m.window
                    &&& f.delivered == m.delivered
                }
            }),
    {
        proof {
            lemma_fresh_sub(self@.entries, now@, self@.config.max_packet_age@);
        }
        self.evict_stale(now);
        if self.entries.len() == 0 {
            return Ok(None);
        }
        let arrival = self.entries[0].arrival;
        if now.saturating_sub(arrival).as_nanos() >= self.target_delay.as_nanos() {
            let ghost before = self.entries@;
            let ghost w = self.window@;
            let entry = self.entries.remove(0);
            let sequence_number = entry.packet.sequence_number;
            let _lost = self.window.advance(sequence_number);
            self.packets_delivered_total = self.packets_delivered_total + 1;
            proof {
                let f = self.entries@;
                assert(f =~= before.drop_first());
                assert forall|k: int| 0 <= k < f.len() implies (self.window@.expected matches Some(x) ==> x <= key(#[trigger] f[k])) by {
                    assert(f[k] == before[k + 1]);
                    assert(key(before[0]) < key(before[k + 1]));
                }
            }
            Ok(Some(entry.packet))
        } else {
            Ok(None)
        }
    }

    /// Releases every buffered packet at once, in sequence order, ignoring
    /// the target delay; each counts as delivered.
    pub fn flush(&mut self) -> (r: Vec<AudioPacket>)
        requires
            old(self).wf(),
            advance_all_fits(old(self)@.window, keys(old(self)@.entries)),
            old(self)@.delivered + old(self)@.entries.len() <= u64::MAX,
        ensures
            final(self).wf(),
            releases_above(
                old(self)@.window,
                final(self)@.window,
                r@.map_values(|p: AudioPacket| p.sequence_number),
            ),
            r@ == old(self)@.entries.map_values(|e: BufferedEntry| e.packet),
            final(self)@ == (JitterModel {
                entries: Seq::empty(),
                window: advance_all(old(self)@.window, keys(old(self)@.entries)),
                delivered: (old(self)@.delivered + old(self)@.entries.len()) as u64,
                ..old(self)@
            }),
    {
        let ghost m = self@;
        let ghost ks = keys(m.entries);
        let mut drained: Vec<AudioPacket> = Vec::new();
        let ghost mut i: int = 0;
        proof {
            assert(ks.take(0) =~= Seq::<u64>::empty());
            assert(m.entries.skip(0) =~= m.entries);
        }
        while self.entries.len() > 0
            invariant
                self.config == m.config,
                self.target_delay@ == m.target_delay,
                self.packets_buffered_total == m.buffered,
                self.packets_dropped_total == m.dropped,
                self.max_occupancy == m.max_occupancy,
                0 <= i <= m.entries.len(),
                ks == keys(m.entries),
                self.entries@ == m.entries.skip(i),
                drained@ == m.entries.take(i).map_values(|e: BufferedEntry| e.packet),
                self.window.wf(),
                self.window@ == advance_all(m.window, ks.take(i)),
                advance_all_fits(m.window, ks),
                self.packets_delivered_total == m.delivered + i,
                m.delivered + m.entries.len() <= u64::MAX,
            decreases self.entries.len(),
        {
            let entry = self.entries.remove(0);
            let sequence_number = entry.packet.sequence_number;
            proof {
                assert(entry == m.entries[i]);
                assert(ks.take(i + 1).drop_last() =~= ks.take(i));
                assert(ks.take(i + 1).last() == sequence_number);
                lemma_fits_prefix(m.window, ks, i + 1);
            }
            let _lost = self.window.advance(sequence_number);
            self.packets_delivered_total = self.packets_delivered_total + 1;
            drained.push(entry.packet);
            proof {
                assert(self.entries@ =~= m.entries.skip(i + 1));
                assert(drained@ =~= m.entries.take(i + 1).map_values(|e: BufferedEntry| e.packet));
                i = i + 1;
            }
        }
        proof {
            assert(i == m.entries.len());
            assert(ks.take(i) =~= ks);
            assert(m.entries.take(i) =~= m.entries);
            assert(self.entries@ =~= Seq::<BufferedEntry>::empty());
            lemma_advance_all_keeps_shape(m.window, ks);
            assert(self.window@ == advance_all(m.window, ks));
            self.window.lemma_wf_model();
        }
        drained
    }

    /// Drops every buffered packet, resets the window and restores the
    /// configured target delay; configuration and totals are kept.
    pub fn reset(&mut self)
        requires
            old(self).wf(),
        ensures
            final(self).wf(),
            final(self)@ == (JitterModel {
                entries: Seq::empty(),
                window: crate::buffer::packet_window::fresh_model(
                    old(self)@.window.capacity,
                    old(self)@.window.max_missing,
                ),
                target_delay: old(self)@.config.target_delay@,
                ..old(self)@
            }),
    {
        self.entries.clear();
        self.window.reset();
        self.target_delay = self.config.target_delay;
    }

    /// Sets the target delay; `InvalidTargetDelay` (in whole milliseconds,
    /// truncated to 64 bits) when it lies outside the configured bounds.
    pub fn set_target_delay(&mut self, delay: TimeSpan) -> (r: Result<(), BufferError>)
        requires
            old(self).wf(),
        ensures
            final(self).wf(),
            ({
                let m = old(self)@;
                let lo = m.config.min_target_delay@;
                let hi = m.config.max_target_delay@;
                if delay@ < lo || delay@ > hi {
                    &&& r == Err::<(), BufferError>(BufferError::InvalidTargetDelay {
                        requested_ms: (delay@ / 1_000_000) as u64,
                        min_ms: (lo / 1_000_000) as u64,
                        max_ms: (hi / 1_000_000) as u64,
                    })
                    &&& final(self)@ == m
                } else {
                    &&& r is Ok
                    &&& final(self)@ == (JitterModel { target_delay: delay@, ..m })
                }
            }),
    {
        let min = self.config.min_target_delay;
        let max = self.config.max_target_delay;
        if delay.as_nanos() < min.as_nanos() || delay.as_nanos() > max.as_nanos() {
            return Err(BufferError::InvalidTargetDelay {
                requested_ms: delay.as_millis() as u64,
                min_ms: min.as_millis() as u64,
                max_ms: max.as_millis() as u64,
            });
        }
        self.target_delay = delay;
        Ok(())
    }

    /// The active target delay.
    pub fn current_delay(&self) -> (r: TimeSpan)
        ensures
            r@ == self@.target_delay,
    {
        self.target_delay
    }

    /// Number of buffered packets.
    pub fn len(&self) -> (r: usize)
        ensures
            r == self@.entries.len(),
    {
        self.entries.len()
    }

    /// Whether no packet is buffered.
    pub fn is_empty(&self) -> (r: bool)
        ensures
            r == (self@.entries.len() == 0),
    {
        self.entries.len() == 0
    }

    /// The buffered packet with the lowest sequence number, left in place.
    pub fn peek(&self) -> (r: Option<&AudioPacket>)
        ensures
            self@.entries.len() == 0 ==> r is None,
            self@.entries.len() > 0 ==> r == Some(&self@.entries[0].packet),
    {
        if self.entries.len() == 0 {
            None
        } else {
            Some(&self.entries[0].packet)
        }
    }

    /// The configuration the buffer was built with.
    pub fn config(&self) -> (r: &BufferConfig)
        ensures
            *r == self@.config,
    {
        &self.config
    }

    /// A snapshot of the buffer's counters.
    pub fn statistics(&self) -> (r: JitterBufferStatistics)
        ensures
            r.packets_buffered == self@.buffered,
            r.packets_delivered == self@.delivered,
            r.packets_dropped == self@.dropped,
            r.max_occupancy == self@.max_occupancy,
            r.window == self@.window.stats,
    {
        JitterBufferStatistics {
            packets_buffered: self.packets_buffered_total,
            packets_delivered: self.packets_delivered_total,
            packets_dropped: self.packets_dropped_total,
            max_occupancy: self.max_occupancy,
            window: self.window.statistics(),
        }
    }
}

/// Packets are released in strictly increasing sequence order: once
/// `next_packet` at `now` releases the packet under `k`, every packet still
/// buffered has a larger sequence number, and so has every packet the
/// window will admit afterwards (the one exception being `k == u64::MAX`
/// in a window that remembers nothing, where `u64::MAX` stays admissible).
pub proof fn lemma_release_in_sequence_order(m: JitterModel, now: nat)
    requires
        model_wf(m),
        fresh_entries(m.entries, now, m.config.max_packet_age@).len() > 0,
    ensures
        ({
            let fresh = fresh_entries(m.entries, now, m.config.max_packet_age@);
            let k = key(fresh[0]);
            let window = advance_model(m.window, k);
            &&& forall|j: int| 0 <= j < fresh.drop_first().len() ==> k < key(#[trigger] fresh.drop_first()[j])
            &&& forall|t: u64| admit_result(window, t) is Ok && !(k == u64::MAX && m.window.capacity == 0) ==> k < t
        }),
{
    let fresh = fresh_entries(m.entries, now, m.config.max_packet_age@);
    lemma_fresh_sub(m.entries, now, m.config.max_packet_age@);
    let k = key(fresh[0]);
    let window = advance_model(m.window, k);
    assert forall|j: int| 0 <= j < fresh.drop_first().len() implies k < key(#[trigger] fresh.drop_first()[j]) by {
        assert(fresh.drop_first()[j] == fresh[j + 1]);
    }
    assert forall|t: u64| admit_result(window, t) is Ok && !(k == u64::MAX && m.window.capacity == 0) implies k < t by {
        if t <= k {
            if k < u64::MAX {
                assert(window.expected matches Some(e) && e > t);
            } else if t == k {
                crate::buffer::packet_window::lemma_delivered_not_readmitted(m.window, k);
            } else {
                assert(window.expected matches Some(e) && e > t);
            }
        }
    }
}

/// After `next_packet` at `now`, no packet older than `max_packet_age`
/// remains buffered, and the buffer stays in sequence order.
pub proof fn lemma_no_stale_packet_kept(m: JitterModel, now: nat)
    requires
        model_wf(m),
    ensures
        ({
            let fresh = fresh_entries(m.entries, now, m.config.max_packet_age@);
            &&& sorted(fresh)
            &&& forall|j: int| 0 <= j < fresh.len() ==> !is_stale(#[trigger] fresh[j], now, m.config.max_packet_age@)
        }),
{
    lemma_fresh_sub(m.entries, now, m.config.max_packet_age@);
}

/// `out` lists, in order, the sequence numbers one operation released
/// while it took the window from `before` to `after`: they rise strictly,
/// none lies behind the watermark of `before`, the watermark never moves
/// back, and after a release it lies past the last number released (unless
/// that number is `u64::MAX`).
pub open spec fn releases_above(before: WindowModel, after: WindowModel, out: Seq<u64>) -> bool {
    &&& forall|i: int, j: int| 0 <= i < j < out.len() ==> out[i] < out[j]
    &&& forall|i: int| 0 <= i < out.len() ==> (before.expected matches Some(e) ==> e <= #[trigger] out[i])
    &&& (before.expected matches Some(e1) ==> (after.expected matches Some(e2) && e1 <= e2))
    &&& out.len() > 0 ==> (after.expected matches Some(e2) && (out.last() < e2 || out.last() == u64::MAX))
}

/// The sequence numbers released over a run, operation after operation.
pub open spec fn released_over(outs: Seq<Seq<u64>>) -> Seq<u64>
    decreases outs.len(),
{
    if outs.len() == 0 {
        Seq::empty()
    } else {
        released_over(outs.drop_last()) + outs.last()
    }
}

proof fn lemma_advance_all_rises(w: WindowModel, s: Seq<u64>)
    ensures
        w.expected matches Some(e1) ==> (advance_all(w, s).expected matches Some(e2) && e1 <= e2),
        s.len() > 0 ==> (advance_all(w, s).expected matches Some(e2) && (s.last() < e2 || s.last()
            == u64::MAX)),
    decreases s.len(),
{
    if s.len() > 0 {
        lemma_advance_all_rises(w, s.drop_last());
    }
}

/// Every release of `next_packet` rises above what came before: the packet
/// it releases lies at or past the watermark, which then moves past it.
pub proof fn lemma_next_release_rises(m: JitterModel, now: nat)
    requires
        model_wf(m),
        fresh_entries(m.entries, now, m.config.max_packet_age@).len() > 0,
    ensures
        ({
            let k = key(fresh_entries(m.entries, now, m.config.max_packet_age@)[0]);
            releases_above(m.window, advance_model(m.window, k), seq![k])
        }),
{
    let fresh = fresh_entries(m.entries, now, m.config.max_packet_age@);
    lemma_fresh_sub(m.entries, now, m.config.max_packet_age@);
    let j = choose|j: int| 0 <= j < m.entries.len() && fresh[0] == m.entries[j];
    assert(m.window.expected matches Some(e) ==> e <= key(m.entries[j]));
    crate::buffer::packet_window::lemma_watermark_monotone(m.window, key(fresh[0]));
    let out = seq![key(fresh[0])];
    assert(out.last() == key(fresh[0]));
}

/// Every release of `flush` rises above what came before: the packets
/// leave in strictly increasing sequence order, at or past the watermark,
/// which then moves past the last of them.
pub proof fn lemma_flush_rises(m: JitterModel)
    requires
        model_wf(m),
    ensures
        releases_above(m.window, advance_all(m.window, keys(m.entries)), keys(m.entries)),
{
    let ks = keys(m.entries);
    lemma_advance_all_rises(m.window, ks);
    assert forall|i: int, j: int| 0 <= i < j < ks.len() implies ks[i] < ks[j] by {
        assert(key(m.entries[i]) < key(m.entries[j]));
    }
    assert forall|i: int| 0 <= i < ks.len() implies (m.window.expected matches Some(e) ==> e
        <= #[trigger] ks[i]) by {
        assert(ks[i] == key(m.entries[i]));
    }
}

/// Delivery order holds across a whole run: when each operation of a run
/// (`insert_packet`, `next_packet`, `flush`; no `reset`) releases `outs[i]`
/// while taking the window from `ws[i]` to `ws[i + 1]`, every number
/// released over the run is larger than every number released before it,
/// as long as `u64::MAX` is never released.
pub proof fn lemma_releases_rise_across_a_run(ws: Seq<WindowModel>, outs: Seq<Seq<u64>>)
    requires
        ws.len() == outs.len() + 1,
        forall|i: int| 0 <= i < outs.len() ==> releases_above(ws[i], ws[i + 1], #[trigger] outs[i]),
        forall|i: int, j: int| 0 <= i < outs.len() && 0 <= j < outs[i].len() ==> #[trigger] outs[i][j]
            < u64::MAX,
    ensures
        forall|a: int, b: int|
            0 <= a < b < released_over(outs).len() ==> released_over(outs)[a] < released_over(outs)[b],
        released_over(outs).len() > 0 ==> (ws.last().expected matches Some(e) && forall|a: int|
            0 <= a < released_over(outs).len() ==> #[trigger] released_over(outs)[a] < e),
    decreases outs.len(),
{
    if outs.len() > 0 {
        let n = outs.len() - 1;
        let prev_ws = ws.drop_last();
        let prev_outs = outs.drop_last();
        assert forall|i: int| 0 <= i < prev_outs.len() implies releases_above(
            prev_ws[i],
            prev_ws[i + 1],
            #[trigger] prev_outs[i],
        ) by {
            assert(prev_outs[i] == outs[i]);
            assert(prev_ws[i] == ws[i] && prev_ws[i + 1] == ws[i + 1]);
        }
        assert forall|i: int, j: int| 0 <= i < prev_outs.len() && 0 <= j < prev_outs[i].len() implies #[trigger] prev_outs[i][j]
            < u64::MAX by {
            assert(prev_outs[i] == outs[i]);
        }
        lemma_releases_rise_across_a_run(prev_ws, prev_outs);
        let before = released_over(prev_outs);
        let o = outs[n];
        let all = released_over(outs);
        assert(all == before + o);
        assert(releases_above(ws[n], ws[n + 1], o));
        assert(prev_ws.last() == ws[n]);
        assert(ws.last() == ws[n + 1]);
        assert forall|j: int| 0 <= j < o.len() implies o[j] < u64::MAX by {
            assert(outs[n][j] < u64::MAX);
        }
        assert forall|a: int, b: int| 0 <= a < b < all.len() implies all[a] < all[b] by {
            if b < before.len() {
                assert(all[a] == before[a] && all[b] == before[b]);
            } else if a < before.len() {
                assert(all[a] == before[a]);
                assert(all[b] == o[b - before.len()]);
            } else {
                assert(all[a] == o[a - before.len()]);
                assert(all[b] == o[b - before.len()]);
            }
        }
        if all.len() > 0 {
            if o.len() > 0 {
                let e2 = ws[n + 1].expected->Some_0;
                assert(o.last() < u64::MAX);
                assert(o.last() < e2);
                assert forall|a: int| 0 <= a < all.len() implies #[trigger] all[a] < e2 by {
                    if a < before.len() {
                        assert(all[a] == before[a]);
                        assert(all[a] < ws[n].expected->Some_0);
                    } else {
                        assert(all[a] == o[a - before.len()]);
                        if a - before.len() < o.len() - 1 {
                            assert(o[a - before.len()] < o[o.len() - 1]);
                        }
                    }
                }
            } else {
                assert(all =~= before);
                let e1 = ws[n].expected->Some_0;
                assert forall|a: int| 0 <= a < all.len() implies #[trigger] all[a] < ws[n + 1].expected->Some_0 by {
                    assert(all[a] == before[a]);
                    assert(before[a] < e1);
                }
            }
        }
    }
}

/// The adaptive target delay moves one bounded step at a time: starting
/// from a delay `t` within the configured bounds, the new delay stays
/// within them, differs from `t` by at most `adaptive_step`, and moves
/// toward the goal (the configured delay plus the headroom, saturating,
/// within the bounds) without passing it: up by
/// `min(t + adaptive_step, goal)`, down to `max(t - adaptive_step, goal)`
/// (no lower than zero), or not at all when `t` is the goal.
pub proof fn lemma_adaptive_step_bounded(c: BufferConfig, t: nat, headroom: nat)
    requires
        c.min_target_delay@ <= c.max_target_delay@,
        c.min_target_delay@ <= t <= c.max_target_delay@,
    ensures
        ({
            let lo = c.min_target_delay@;
            let hi = c.max_target_delay@;
            let step = c.adaptive_step@;
            let wanted: nat = if c.target_delay@ + headroom <= MAX_NANOS {
                c.target_delay@ + headroom
            } else {
                MAX_NANOS as nat
            };
            let goal: nat = if wanted < lo {
                lo
            } else if wanted > hi {
                hi
            } else {
                wanted
            };
            let down: nat = if t >= step {
                (t - step) as nat
            } else {
                0
            };
            let r = adapted_delay(c, t, headroom);
            &&& lo <= r <= hi
            &&& r <= t + step
            &&& t <= r + step
            &&& goal > t ==> r == (if t + step <= goal { t + step } else { goal })
            &&& goal < t ==> r == (if down >= goal { down } else { goal })
            &&& goal == t ==> r == t
        }),
{
}

proof fn lemma_fresh_keeps_young(entries: Seq<BufferedEntry>, now: nat, max_age: nat, j: int)
    requires
        0 <= j < entries.len(),
        !is_stale(entries[j], now, max_age),
    ensures
        fresh_entries(entries, now, max_age).contains(entries[j]),
    decreases entries.len(),
{
    let rest = entries.drop_last();
    if j == entries.len() - 1 {
        let f = fresh_entries(entries, now, max_age);
        assert(f[f.len() - 1] == entries[j]);
    } else {
        assert(rest[j] == entries[j]);
        lemma_fresh_keeps_young(rest, now, max_age, j);
        let fr = fresh_entries(rest, now, max_age);
        let k = choose|k: int| 0 <= k < fr.len() && fr[k] == entries[j];
        if !is_stale(entries.last(), now, max_age) {
            assert(fresh_entries(entries, now, max_age)[k] == entries[j]);
        }
    }
}

/// What `next_packet` at `now` keeps and releases, in terms of arrival
/// times: a buffered packet survives the eviction exactly when it arrived
/// no more than `max_packet_age` before `now`; the survivors stay in
/// sequence order; and the first of them is released exactly when it has
/// waited the target delay: the delay is zero, or `now` is at least its
/// arrival plus the delay.
pub proof fn lemma_eviction_and_release_by_age(m: JitterModel, now: nat)
    requires
        model_wf(m),
    ensures
        ({
            let age = m.config.max_packet_age@;
            let fresh = fresh_entries(m.entries, now, age);
            &&& sorted(fresh)
            &&& forall|j: int| 0 <= j < m.entries.len() ==> (fresh.contains(#[trigger] m.entries[j]) <==> now
                <= m.entries[j].arrival@ + age)
            &&& fresh.len() > 0 ==> (elapsed(now, fresh[0].arrival@) >= m.target_delay <==> (m.target_delay
                == 0 || now >= fresh[0].arrival@ + m.target_delay))
        }),
{
    let age = m.config.max_packet_age@;
    let fresh = fresh_entries(m.entries, now, age);
    lemma_fresh_sub(m.entries, now, age);
    assert forall|j: int| 0 <= j < m.entries.len() implies (fresh.contains(#[trigger] m.entries[j]) <==> now
        <= m.entries[j].arrival@ + age) by {
        if now <= m.entries[j].arrival@ + age {
            lemma_fresh_keeps_young(m.entries, now, age, j);
        }
        if fresh.contains(m.entries[j]) {
            let k = choose|k: int| 0 <= k < fresh.len() && fresh[k] == m.entries[j];
            assert(!is_stale(fresh[k], now, age));
        }
    }
}

/// On overflow the packet with the lowest sequence number makes room: when
/// the buffer is full, every buffered packet but that one is kept for the
/// new arrival to join, and that one is not; otherwise nothing is dropped.
pub proof fn lemma_overflow_drops_lowest(m: JitterModel)
    requires
        model_wf(m),
        m.entries.len() > 0,
    ensures
        ({
            let base = entries_before_insert(m);
            let lowest = m.entries[0];
            &&& forall|j: int| 0 <= j < m.entries.len() ==> key(lowest) <= key(#[trigger] m.entries[j])
            &&& m.entries.len() >= m.config.max_buffer_size ==> {
                &&& base.len() == m.entries.len() - 1
                &&& !base.contains(lowest)
                &&& forall|j: int| 1 <= j < m.entries.len() ==> base.contains(#[trigger] m.entries[j])
            }
            &&& m.entries.len() < m.config.max_buffer_size ==> base == m.entries
        }),
{
    let lowest = m.entries[0];
    assert forall|j: int| 0 <= j < m.entries.len() implies key(lowest) <= key(#[trigger] m.entries[j]) by {
        if j > 0 {
            assert(key(m.entries[0]) < key(m.entries[j]));
        }
    }
    if m.entries.len() >= m.config.max_buffer_size {
        let base = m.entries.drop_first();
        assert forall|j: int| 1 <= j < m.entries.len() implies base.contains(#[trigger] m.entries[j]) by {
            assert(base[j - 1] == m.entries[j]);
        }
        if base.contains(lowest) {
            let k = choose|k: int| 0 <= k < base.len() && base[k] == lowest;
            assert(base[k] == m.entries[k + 1]);
            assert(key(m.entries[0]) < key(m.entries[k + 1]));
        }
    }
}

} // verus!
