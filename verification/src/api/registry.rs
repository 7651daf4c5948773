//! The rooms the API knows, keyed by room id: a new room under an id
//! already taken replaces the old one, and a lookup answers the room last
//! stored under the id.

use vstd::prelude::*;

use crate::api::room::{Room, RoomView};
use crate::text::chars_of;

verus! {

/// The rooms of `s` by id; a later room wins over an earlier one with the
/// same id.
pub open spec fn room_map(s: Seq<Room>) -> Map<Seq<char>, RoomView>
    decreases s.len(),
{
    if s.len() == 0 {
        Map::empty()
    } else {
        room_map(s.drop_last()).insert(s.last().room_id@, s.last()@)
    }
}

/// No two rooms of `s` share an id.
pub open spec fn ids_distinct(s: Seq<Room>) -> bool {
    forall|i: int, j: int| 0 <= i < j < s.len() ==> s[i].room_id@ != s[j].room_id@
}

/// The room registry of the API server.
pub struct RoomRegistry {
    rooms: Vec<Room>,
}

impl RoomRegistry {
    #[verifier::type_invariant]
    spec fn well_formed(self) -> bool {
        ids_distinct(self.rooms@)
    }
}

impl View for RoomRegistry {
    type V = Map<Seq<char>, RoomView>;

    closed spec fn view(&self) -> Map<Seq<char>, RoomView> {
        room_map(self.rooms@)
    }
}

proof fn lemma_found(s: Seq<Room>, i: int)
    requires
        ids_distinct(s),
        0 <= i < s.len(),
    ensures
        room_map(s).contains_key(s[i].room_id@),
        room_map(s)[s[i].room_id@] == s[i]@,
    decreases s.len(),
{
    if i < s.len() - 1 {
        assert(ids_distinct(s.drop_last()));
        lemma_found(s.drop_last(), i);
        assert(s.drop_last()[i] == s[i]);
    }
}

proof fn lemma_absent(s: Seq<Room>, k: Seq<char>)
    requires
        forall|i: int| 0 <= i < s.len() ==> s[i].room_id@ != k,
    ensures
        !room_map(s).contains_key(k),
    decreases s.len(),
{
    if s.len() > 0 {
        assert forall|i: int| 0 <= i < s.drop_last().len() implies s.drop_last()[i].room_id@ != k by {
            assert(s.drop_last()[i] == s[i]);
        }
        lemma_absent(s.drop_last(), k);
    }
}

proof fn lemma_replaced(s: Seq<Room>, i: int, r: Room)
    requires
        ids_distinct(s),
        0 <= i < s.len(),
        s[i].room_id@ == r.room_id@,
    ensures
        ids_distinct(s.update(i, r)),
        room_map(s.update(i, r)) =~= room_map(s).insert(r.room_id@, r@),
    decreases s.len(),
{
    let u = s.update(i, r);
    assert(ids_distinct(u)) by {
        assert forall|a: int, b: int| 0 <= a < b < u.len() implies u[a].room_id@ != u[b].room_id@ by {
            assert(s[a].room_id@ != s[b].room_id@);
        }
    }
    if i == s.len() - 1 {
        assert(u.drop_last() =~= s.drop_last());
    } else {
        assert(u.drop_last() =~= s.drop_last().update(i, r));
        assert(ids_distinct(s.drop_last()));
        lemma_replaced(s.drop_last(), i, r);
        assert(s.last().room_id@ != r.room_id@);
    }
}

impl RoomRegistry {
    /// A registry without rooms.
    pub fn new() -> (r: Self)
        ensures
            r@ == Map::<Seq<char>, RoomView>::empty(),
    {
        RoomRegistry { rooms: Vec::new() }
    }

    fn index_of(&self, id: &[char]) -> (r: Option<usize>)
        ensures
            r matches Some(i) ==> i < self.rooms@.len() && self.rooms@[i as int].room_id@ == id@,
            r is None ==> forall|i: int| 0 <= i < self.rooms@.len() ==> self.rooms@[i].room_id@ != id@,
    {
        let mut i: usize = 0;
        while i < self.rooms.len()
            invariant
                i <= self.rooms@.len(),
                forall|k: int| 0 <= k < i ==> self.rooms@[k].room_id@ != id@,
            decreases self.rooms.len() - i,
        {
            let key = chars_of(self.rooms[i].room_id.as_str());
            if same_chars(&key, id) {
                return Some(i);
            }
            i = i + 1;
        }
        None
    }

    /// Stores `room` under its id, in place of any room that had it.
    pub fn insert(&mut self, room: Room)
        ensures
            final(self)@ == old(self)@.insert(room.room_id@, room@),
    {
        proof {
            use_type_invariant(&*self);
        }
        let key = chars_of(room.room_id.as_str());
        let found = self.index_of(&key);
        let mut rooms: Vec<Room> = Vec::new();
        std::mem::swap(&mut rooms, &mut self.rooms);
        let ghost before = rooms@;
        match found {
            Some(i) => {
                proof {
                    lemma_replaced(before, i as int, room);
                }
                rooms.set(i, room);
            },
            None => {
                proof {
                    assert(before.push(room).drop_last() =~= before);
                }
                rooms.push(room);
                assert(ids_distinct(rooms@)) by {
                    assert forall|a: int, b: int| 0 <= a < b < rooms@.len() implies rooms@[a].room_id@
                        != rooms@[b].room_id@ by {
                        if b == before.len() {
                            assert(before[a].room_id@ != key@);
                        } else {
                            assert(before[a].room_id@ != before[b].room_id@);
                        }
                    }
                }
            },
        }
        self.rooms = rooms;
    }

    /// The room stored under `id`, if any.
    pub fn get(&self, id: &str) -> (r: Option<&Room>)
        ensures
            r matches Some(room) ==> self@.contains_key(id@) && self@[id@] == room@,
            r is None ==> !self@.contains_key(id@),
    {
        proof {
            use_type_invariant(self);
        }
        let key = chars_of(id);
        match self.index_of(&key) {
            Some(i) => {
                proof {
                    lemma_found(self.rooms@, i as int);
                }
                Some(&self.rooms[i])
            },
            None => {
                proof {
                    lemma_absent(self.rooms@, id@);
                }
                None
            },
        }
    }
}

/// Whether `a` and `b` hold the same characters.
pub fn same_chars(a: &[char], b: &[char]) -> (r: bool)
    ensures
        r == (a@ == b@),
{
    if a.len() != b.len() {
        return false;
    }
    let mut i: usize = 0;
    while i < a.len()
        invariant
            a@.len() == b@.len(),
            i <= a@.len(),
            forall|k: int| 0 <= k < i ==> a@[k] == b@[k],
        decreases a.len() - i,
    {
        if a[i] != b[i] {
            return false;
        }
        i = i + 1;
    }
    assert(a@ =~= b@);
    true
}

} // verus!
