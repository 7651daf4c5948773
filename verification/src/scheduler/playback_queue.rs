//! The Playback Scheduler's ordering core: a queue of packets awaiting
//! release, handed out earliest deadline first, ties broken by sequence
//! number and then packet id, with at most one packet per id.

use std::collections::HashSet;

use vstd::multiset::Multiset;
use vstd::prelude::*;

use crate::scheduler::error::SchedulerError;
use crate::streaming::packet::{AudioPacket, AudioPacketView};
use crate::time_span::TimeSpan;

verus! {

broadcast use {vstd::std_specs::hash::group_hash_axioms, vstd::seq_lib::group_to_multiset_ensures};

/// A packet paired with its playback deadline.
#[derive(Debug)]
pub struct ScheduledPacket {
    /// The audio packet, unmodified.
    pub packet: AudioPacket,
    /// Timeline moment at which the packet should be released.
    pub deadline: TimeSpan,
    /// Timeline moment at which the packet was scheduled.
    pub scheduled_at: TimeSpan,
}

/// The plain contents of a [`ScheduledPacket`].
pub struct ScheduledPacketView {
    pub packet: AudioPacketView,
    pub deadline: nat,
    pub scheduled_at: nat,
}

impl View for ScheduledPacket {
    type V = ScheduledPacketView;

    open spec fn view(&self) -> ScheduledPacketView {
        ScheduledPacketView {
            packet: self.packet@,
            deadline: self.deadline@,
            scheduled_at: self.scheduled_at@,
        }
    }
}

impl Clone for ScheduledPacket {
    /// A copy with the same contents.
    fn clone(&self) -> (r: Self)
        ensures
            r@ == self@,
    {
        ScheduledPacket {
            packet: self.packet.clone(),
            deadline: self.deadline,
            scheduled_at: self.scheduled_at,
        }
    }
}

impl PartialEq for ScheduledPacket {
    /// Same deadline and same packet id.
    fn eq(&self, other: &Self) -> (r: bool) {
        self.deadline.as_nanos() == other.deadline.as_nanos() && self.packet.packet_id
            == other.packet.packet_id
    }
}

impl vstd::std_specs::cmp::PartialEqSpecImpl for ScheduledPacket {
    open spec fn obeys_eq_spec() -> bool {
        true
    }

    open spec fn eq_spec(&self, other: &Self) -> bool {
        self.deadline@ == other.deadline@ && self.packet.packet_id == other.packet.packet_id
    }
}

impl Eq for ScheduledPacket {
}

/// The packet id a scheduled packet is known by.
pub open spec fn id_of(s: ScheduledPacket) -> u64 {
    s.packet.packet_id
}

/// `a` is released no later than `b`: earlier deadline, then lower
/// sequence number, then lower packet id.
pub open spec fn releases_no_later(a: ScheduledPacket, b: ScheduledPacket) -> bool {
    a.deadline@ < b.deadline@ || (a.deadline@ == b.deadline@ && (a.packet.sequence_number
        < b.packet.sequence_number || (a.packet.sequence_number == b.packet.sequence_number
        && a.packet.packet_id <= b.packet.packet_id)))
}

/// `x` is in `items` and released no later than any of them.
pub open spec fn is_first(items: Multiset<ScheduledPacket>, x: ScheduledPacket) -> bool {
    &&& items.contains(x)
    &&& forall|y: ScheduledPacket| items.contains(y) ==> releases_no_later(x, y)
}

/// Some item of `items` has packet id `id`.
pub open spec fn holds_id(items: Multiset<ScheduledPacket>, id: u64) -> bool {
    exists|y: ScheduledPacket| items.contains(y) && id_of(y) == id
}

/// `rest` is `items` without the item(s) of packet id `id`.
pub open spec fn is_without_id(rest: Multiset<ScheduledPacket>, items: Multiset<ScheduledPacket>, id: u64) -> bool {
    forall|y: ScheduledPacket| #[trigger] rest.count(y) == if id_of(y) == id {
        0
    } else {
        items.count(y)
    }
}

/// Whether `a` is released no later than `b`, in release order.
pub fn release_no_later(a: &ScheduledPacket, b: &ScheduledPacket) -> (r: bool)
    ensures
        r == releases_no_later(*a, *b),
{
    let da = a.deadline.as_nanos();
    let db = b.deadline.as_nanos();
    da < db || (da == db && (a.packet.sequence_number < b.packet.sequence_number || (
    a.packet.sequence_number == b.packet.sequence_number && a.packet.packet_id
        <= b.packet.packet_id)))
}

/// Deadline-ordered playback queue.
#[derive(Debug)]
pub struct PlaybackQueue {
    items: Vec<ScheduledPacket>,
    ids: HashSet<u64>,
    capacity: usize,
}

/// The packet ids of `items`, in order.
pub open spec fn ids_of(items: Seq<ScheduledPacket>) -> Seq<u64> {
    items.map_values(|s: ScheduledPacket| id_of(s))
}

/// No two items share a packet id.
pub open spec fn distinct_ids(items: Seq<ScheduledPacket>) -> bool {
    forall|i: int, j: int| 0 <= i < j < items.len() ==> id_of(items[i]) != id_of(items[j])
}

impl View for PlaybackQueue {
    type V = Multiset<ScheduledPacket>;

    /// The queued packets, in no particular order.
    closed spec fn view(&self) -> Multiset<ScheduledPacket> {
        self.items@.to_multiset()
    }
}

impl PlaybackQueue {
    /// Most packets the queue holds (at least one).
    pub closed spec fn capacity_spec(&self) -> nat {
        self.capacity as nat
    }

    /// The queue's representation agrees with its contents: one item per
    /// id, the id set mirrors the items, and the capacity is respected.
    pub closed spec fn wf(&self) -> bool {
        &&& distinct_ids(self.items@)
        &&& self.ids@ == ids_of(self.items@).to_set()
        &&& self.capacity >= 1
        &&& self.items.len() <= self.capacity
    }

    proof fn lemma_ids(&self)
        requires
            self.wf(),
        ensures
            forall|id: u64| self.ids@.contains(id) <==> holds_id(self@, id),
            self@.len() == self.items@.len(),
            self@.len() <= self.capacity_spec(),
            self.capacity_spec() >= 1,
    {
        let s = self.items@;
        assert forall|id: u64| self.ids@.contains(id) <==> holds_id(self@, id) by {
            if self.ids@.contains(id) {
                let ids = ids_of(s);
                let k = choose|k: int| 0 <= k < ids.len() && ids[k] == id;
                assert(s.to_multiset().contains(s[k]));
            }
            if holds_id(self@, id) {
                let y = choose|y: ScheduledPacket| self@.contains(y) && id_of(y) == id;
                assert(s.contains(y));
                let k = choose|k: int| 0 <= k < s.len() && s[k] == y;
                assert(ids_of(s)[k] == id);
            }
        }
    }

    /// A queue holds at most one packet per id, each packet at most once,
    /// never more than its capacity.
    pub proof fn lemma_one_per_id(&self)
        requires
            self.wf(),
        ensures
            ids_unique(self@),
            forall|x: ScheduledPacket| self@.count(x) <= 1,
            self@.len() <= self.capacity_spec(),
    {
        self.lemma_ids();
        let s = self.items@;
        assert(s.no_duplicates()) by {
            assert forall|i: int, j: int| 0 <= i < s.len() && 0 <= j < s.len() && i != j implies s[i] != s[j] by {
                if i < j {
                    assert(id_of(s[i]) != id_of(s[j]));
                } else {
                    assert(id_of(s[j]) != id_of(s[i]));
                }
            }
        }
        s.lemma_multiset_has_no_duplicates();
        assert forall|x: ScheduledPacket| self@.count(x) <= 1 by {
            if !self@.contains(x) {
                assert(self@.count(x) == 0);
            }
        }
        assert forall|a: ScheduledPacket, b: ScheduledPacket|
            self@.contains(a) && self@.contains(b) && id_of(a) == id_of(b) implies a == b by {
            assert(s.contains(a));
            assert(s.contains(b));
            let i = choose|i: int| 0 <= i < s.len() && s[i] == a;
            let j = choose|j: int| 0 <= j < s.len() && s[j] == b;
            if i < j {
                assert(id_of(s[i]) != id_of(s[j]));
            } else if j < i {
                assert(id_of(s[j]) != id_of(s[i]));
            }
        }
    }

    /// An empty queue holding at most `capacity` packets (at least one).
    pub fn new(capacity: usize) -> (r: Self)
        ensures
            r.wf(),
            r@ == Multiset::<ScheduledPacket>::empty(),
            r.capacity_spec() == if capacity >= 1 { capacity as nat } else { 1 },
    {
        let r = PlaybackQueue {
            items: Vec::new(),
            ids: HashSet::new(),
            capacity: if capacity >= 1 {
                capacity
            } else {
                1
            },
        };
        assert(r.ids@ =~= ids_of(r.items@).to_set());
        assert(r@ =~= Multiset::<ScheduledPacket>::empty());
        r
    }

    /// Adds a packet. Refused with `DuplicatePacket` when a packet with the
    /// same id is queued, then with `QueueFull` when the queue is at
    /// capacity.
    pub fn enqueue(&mut self, item: ScheduledPacket) -> (r: Result<(), SchedulerError>)
        requires
            old(self).wf(),
        ensures
            final(self).wf(),
            final(self).capacity_spec() == old(self).capacity_spec(),
            holds_id(old(self)@, id_of(item)) ==> r == Err::<(), SchedulerError>(
                SchedulerError::DuplicatePacket { packet_id: item.packet.packet_id },
            ) && final(self)@ == old(self)@,
            !holds_id(old(self)@, id_of(item)) && old(self)@.len() >= old(self).capacity_spec() ==> r
                == Err::<(), SchedulerError>(SchedulerError::QueueFull { capacity: old(self).capacity_spec() as usize })
                && final(self)@ == old(self)@,
            !holds_id(old(self)@, id_of(item)) && old(self)@.len() < old(self).capacity_spec() ==> r is Ok
                && final(self)@ == old(self)@.insert(item),
    {
        proof {
            self.lemma_ids();
        }
        let id = item.packet.packet_id;
        if self.ids.contains(&id) {
            return Err(SchedulerError::DuplicatePacket { packet_id: id });
        }
        if self.items.len() >= self.capacity {
            return Err(SchedulerError::QueueFull { capacity: self.capacity });
        }
        let ghost old_items = self.items@;
        self.ids.insert(id);
        self.items.push(item);
        proof {
            let s = self.items@;
            assert(s == old_items.push(item));
            assert(ids_of(s) =~= ids_of(old_items).push(id));
            assert(self.ids@ =~= ids_of(s).to_set()) by {
                broadcast use vstd::seq_lib::group_seq_properties;
            }
            assert forall|i: int, j: int| 0 <= i < j < s.len() implies id_of(s[i]) != id_of(s[j]) by {
                if j == s.len() - 1 {
                    assert(ids_of(old_items)[i] == id_of(s[i]));
                }
            }
        }
        Ok(())
    }

    /// Index of the item released first (the queue must not be empty).
    fn first_index(&self) -> (r: usize)
        requires
            self.wf(),
            self.items.len() > 0,
        ensures
            r < self.items.len(),
            is_first(self@, self.items@[r as int]),
    {
        let mut best: usize = 0;
        let mut i: usize = 1;
        while i < self.items.len()
            invariant
                1 <= i <= self.items.len(),
                best < i,
                forall|j: int| 0 <= j < i ==> releases_no_later(self.items@[best as int], #[trigger] self.items@[j]),
            decreases self.items.len() - i,
        {
            if !release_no_later(&self.items[best], &self.items[i]) {
                best = i;
            }
            i = i + 1;
        }
        proof {
            let s = self.items@;
            assert forall|y: ScheduledPacket| self@.contains(y) implies releases_no_later(s[best as int], y) by {
                assert(s.contains(y));
                let k = choose|k: int| 0 <= k < s.len() && s[k] == y;
                assert(releases_no_later(s[best as int], s[k]));
            }
            assert(s.to_multiset().contains(s[best as int]));
        }
        best
    }

    /// Removes the item at `index`, keeping the id set in step.
    fn remove_at(&mut self, index: usize) -> (r: ScheduledPacket)
        requires
            old(self).wf(),
            index < old(self).items.len(),
        ensures
            final(self).wf(),
            final(self).capacity_spec() == old(self).capacity_spec(),
            r == old(self).items@[index as int],
            final(self).items@ == old(self).items@.remove(index as int),
            final(self)@ == old(self)@.remove(r),
    {
        let ghost old_items = self.items@;
        let item = self.items.remove(index);
        self.ids.remove(&item.packet.packet_id);
        proof {
            let s = self.items@;
            assert(s == old_items.remove(index as int));
            assert forall|i: int, j: int| 0 <= i < j < s.len() implies id_of(s[i]) != id_of(s[j]) by {
                let oi = if i < index { i } else { i + 1 };
                let oj = if j < index { j } else { j + 1 };
                assert(s[i] == old_items[oi]);
                assert(s[j] == old_items[oj]);
            }
            assert(self.ids@ =~= ids_of(s).to_set()) by {
                assert forall|x: u64| self.ids@.contains(x) <==> ids_of(s).to_set().contains(x) by {
                    if ids_of(s).contains(x) {
                        let k = choose|k: int| 0 <= k < ids_of(s).len() && ids_of(s)[k] == x;
                        let ok = if k < index { k } else { k + 1 };
                        assert(s[k] == old_items[ok]);
                        assert(ids_of(old_items)[ok] == x);
                        assert(ok != index);
                    }
                    if self.ids@.contains(x) {
                        let k = choose|k: int| 0 <= k < ids_of(old_items).len() && ids_of(old_items)[k] == x;
                        assert(k != index);
                        let nk = if k < index { k } else { k - 1 };
                        assert(s[nk] == old_items[k]);
                        assert(ids_of(s)[nk] == x);
                    }
                }
            }
        }
        item
    }

    /// Removes and returns the packet released first: earliest deadline,
    /// then lowest sequence number, then lowest id. `Ok(None)` when empty.
    pub fn dequeue(&mut self) -> (r: Result<Option<ScheduledPacket>, SchedulerError>)
        requires
            old(self).wf(),
        ensures
            final(self).wf(),
            final(self).capacity_spec() == old(self).capacity_spec(),
            r is Ok,
            old(self)@.len() == 0 ==> r == Ok::<Option<ScheduledPacket>, SchedulerError>(None)
                && final(self)@ == old(self)@,
            old(self)@.len() > 0 ==> (r matches Ok(Some(x)) && is_first(old(self)@, x)
                && final(self)@ == old(self)@.remove(x)),
            old(self)@.len() > 0 ==> (r matches Ok(Some(x)) && !holds_id(final(self)@, id_of(x))),
    {
        proof {
            self.lemma_ids();
            self.lemma_one_per_id();
        }
        if self.items.len() == 0 {
            return Ok(None);
        }
        let index = self.first_index();
        let item = self.remove_at(index);
        Ok(Some(item))
    }

    /// A copy of the packet that would be released first, left in place.
    pub fn peek(&self) -> (r: Result<Option<ScheduledPacket>, SchedulerError>)
        requires
            self.wf(),
        ensures
            r is Ok,
            self@.len() == 0 ==> r == Ok::<Option<ScheduledPacket>, SchedulerError>(None),
            self@.len() > 0 ==> (r matches Ok(Some(x)) && exists|y: ScheduledPacket| is_first(self@, y) && x@ == y@),
    {
        proof {
            self.lemma_ids();
        }
        if self.items.len() == 0 {
            return Ok(None);
        }
        let index = self.first_index();
        Ok(Some(self.items[index].clone()))
    }

    /// Removes the packet with `packet_id`, wherever it sits in release
    /// order; `Ok(true)` when one was queued.
    pub fn cancel(&mut self, packet_id: u64) -> (r: Result<bool, SchedulerError>)
        requires
            old(self).wf(),
        ensures
            final(self).wf(),
            final(self).capacity_spec() == old(self).capacity_spec(),
            r == Ok::<bool, SchedulerError>(holds_id(old(self)@, packet_id)),
            is_without_id(final(self)@, old(self)@, packet_id),
    {
        proof {
            self.lemma_ids();
        }
        if !self.ids.contains(&packet_id) {
            proof {
                assert forall|y: ScheduledPacket| #[trigger] self@.count(y) == if id_of(y) == packet_id { 0 } else { self@.count(y) } by {
                    if id_of(y) == packet_id && self@.count(y) > 0 {
                        assert(self@.contains(y));
                        assert(holds_id(self@, packet_id));
                    }
                }
            }
            return Ok(false);
        }
        let mut i: usize = 0;
        while i < self.items.len() && self.items[i].packet.packet_id != packet_id
            invariant
                self.wf(),
                i <= self.items.len(),
                holds_id(self@, packet_id),
                forall|j: int| 0 <= j < i ==> id_of(#[trigger] self.items@[j]) != packet_id,
            decreases self.items.len() - i,
        {
            i = i + 1;
        }
        proof {
            if i == self.items.len() {
                let y = choose|y: ScheduledPacket| self@.contains(y) && id_of(y) == packet_id;
                assert(self.items@.contains(y));
            }
        }
        let ghost before = self.items@;
        let removed = self.remove_at(i);
        proof {
            assert forall|y: ScheduledPacket| #[trigger] self@.count(y) == if id_of(y) == packet_id { 0 } else { before.to_multiset().count(y) } by {
                if id_of(y) == packet_id {
                    if self@.count(y) > 0 {
                        assert(self.items@.contains(y));
                        let k = choose|k: int| 0 <= k < self.items@.len() && self.items@[k] == y;
                        let ok = if k < i { k } else { k + 1 };
                        assert(self.items@[k] == before[ok]);
                        assert(ok != i);
                        assert(id_of(before[ok]) != id_of(before[i as int]));
                    }
                } else {
                    assert(y != removed);
                }
            }
        }
        Ok(true)
    }

    /// Number of queued packets.
    pub fn size(&self) -> (r: usize)
        requires
            self.wf(),
        ensures
            r == self@.len(),
    {
        proof {
            self.lemma_ids();
        }
        self.items.len()
    }

    /// Whether no packet is queued.
    pub fn is_empty(&self) -> (r: bool)
        requires
            self.wf(),
        ensures
            r == (self@.len() == 0),
    {
        proof {
            self.lemma_ids();
        }
        self.items.len() == 0
    }

    /// Whether the queue is at capacity.
    pub fn is_full(&self) -> (r: bool)
        requires
            self.wf(),
        ensures
            r == (self@.len() >= self.capacity_spec()),
    {
        proof {
            self.lemma_ids();
            ids_of(self.items@).unique_seq_to_set();
            assert(ids_of(self.items@).no_duplicates()) by {
                assert forall|i: int, j: int| 0 <= i < ids_of(self.items@).len() && 0 <= j < ids_of(self.items@).len() && i != j implies ids_of(self.items@)[i] != ids_of(self.items@)[j] by {
                    if i < j {
                        assert(id_of(self.items@[i]) != id_of(self.items@[j]));
                    } else {
                        assert(id_of(self.items@[j]) != id_of(self.items@[i]));
                    }
                }
            }
        }
        self.ids.len() >= self.capacity
    }

    /// Removes every queued packet.
    pub fn clear(&mut self) -> (r: Result<(), SchedulerError>)
        requires
            old(self).wf(),
        ensures
            final(self).wf(),
            final(self).capacity_spec() == old(self).capacity_spec(),
            r is Ok,
            final(self)@ == Multiset::<ScheduledPacket>::empty(),
    {
        self.items.clear();
        self.ids.clear();
        assert(self.ids@ =~= ids_of(self.items@).to_set());
        assert(self@ =~= Multiset::<ScheduledPacket>::empty());
        Ok(())
    }

    /// Whether a packet with `packet_id` is queued.
    pub fn contains(&self, packet_id: u64) -> (r: bool)
        requires
            self.wf(),
        ensures
            r == holds_id(self@, packet_id),
    {
        proof {
            self.lemma_ids();
        }
        self.ids.contains(&packet_id)
    }
}

/// Items with the same packet id are the same item.
pub open spec fn ids_unique(items: Multiset<ScheduledPacket>) -> bool {
    forall|a: ScheduledPacket, b: ScheduledPacket|
        items.contains(a) && items.contains(b) && id_of(a) == id_of(b) ==> a == b
}

/// Release order is fully determined: in a queue with one packet per id,
/// only one packet can be the next to be released.
pub proof fn lemma_first_is_unique(items: Multiset<ScheduledPacket>, x: ScheduledPacket, y: ScheduledPacket)
    requires
        ids_unique(items),
        is_first(items, x),
        is_first(items, y),
    ensures
        x == y,
{
    assert(releases_no_later(x, y) && releases_no_later(y, x));
    assert(id_of(x) == id_of(y));
    assert(items.contains(x) && items.contains(y));
}

/// Successive releases never go back in time: the packet released after
/// `x` (with nothing enqueued in between) is released no earlier than `x`.
pub proof fn lemma_release_order_monotone(items: Multiset<ScheduledPacket>, x: ScheduledPacket, y: ScheduledPacket)
    requires
        is_first(items, x),
        is_first(items.remove(x), y),
    ensures
        releases_no_later(x, y),
{
    assert(items.contains(y));
}

/// Cancelling a packet right after enqueueing it restores the queue as it
/// was.
pub proof fn lemma_enqueue_cancel_round_trip(
    items: Multiset<ScheduledPacket>,
    item: ScheduledPacket,
    after: Multiset<ScheduledPacket>,
)
    requires
        !holds_id(items, id_of(item)),
        is_without_id(after, items.insert(item), id_of(item)),
    ensures
        after == items,
{
    assert forall|y: ScheduledPacket| after.count(y) == items.count(y) by {
        if id_of(y) == id_of(item) {
            if items.count(y) > 0 {
                assert(items.contains(y));
            }
        }
    }
    assert(after =~= items);
}

/// The packet released first has the earliest deadline; among equal
/// deadlines the lowest sequence number, then the lowest packet id. When it
/// was scheduled plays no part.
pub proof fn lemma_first_by_deadline_sequence_id(items: Multiset<ScheduledPacket>, x: ScheduledPacket)
    requires
        is_first(items, x),
    ensures
        forall|y: ScheduledPacket|
            #[trigger] items.contains(y) ==> x.deadline@ < y.deadline@ || (x.deadline@ == y.deadline@ && (
            x.packet.sequence_number < y.packet.sequence_number || (x.packet.sequence_number
                == y.packet.sequence_number && x.packet.packet_id <= y.packet.packet_id))),
{
    assert forall|y: ScheduledPacket| #[trigger] items.contains(y) implies x.deadline@ < y.deadline@ || (
    x.deadline@ == y.deadline@ && (x.packet.sequence_number < y.packet.sequence_number || (
    x.packet.sequence_number == y.packet.sequence_number && x.packet.packet_id
        <= y.packet.packet_id))) by {
        assert(releases_no_later(x, y));
    }
}

/// Which of two packets is released first depends on their deadlines,
/// sequence numbers and packet ids alone: packets that agree on those are
/// ordered alike against any other, whenever they were scheduled.
pub proof fn lemma_release_order_ignores_schedule_time(a: ScheduledPacket, a2: ScheduledPacket, b: ScheduledPacket)
    requires
        a.deadline@ == a2.deadline@,
        a.packet.sequence_number == a2.packet.sequence_number,
        a.packet.packet_id == a2.packet.packet_id,
    ensures
        releases_no_later(a, b) == releases_no_later(a2, b),
        releases_no_later(b, a) == releases_no_later(b, a2),
{
}

} // verus!
