//! The shared mapping from room to the connections joined to it.

use crate::handle::{ids_of, ConnectionHandle};
use crate::membership::{
    consistent, joined, left, lemma_without_absent, lemma_without_remove, members_of, registered,
    without, RoomMap,
};
use tokio::sync::mpsc::UnboundedSender;
use vstd::hash_map::StringHashMap;
use vstd::prelude::*;

verus! {

/// The rooms and their members, as they are stored.
struct RoomTable {
    /// Where each known room's members are kept in `rooms`.
    index: StringHashMap<usize>,
    rooms: Vec<Vec<ConnectionHandle>>,
    /// How many identities have been handed out.
    issued: u64,
}

impl View for RoomTable {
    type V = RoomMap;

    closed spec fn view(&self) -> RoomMap {
        Map::new(
            |room: Seq<char>| self.index@.contains_key(room),
            |room: Seq<char>| ids_of(self.rooms@[self.index@[room] as int]@),
        )
    }
}

impl RoomTable {
    /// The table's internal invariant: every known room has its place, no
    /// two rooms share one, and every stored handle carries an identity of
    /// its own that this registry issued.
    closed spec fn wf(&self) -> bool {
        &&& forall|room: Seq<char>| #[trigger]
            self.index@.contains_key(room) ==> self.index@[room] < self.rooms@.len()
        &&& forall|a: Seq<char>, b: Seq<char>|
            #[trigger] self.index@.contains_key(a) && #[trigger] self.index@.contains_key(b)
                && self.index@[a] == self.index@[b] ==> a == b
        &&& forall|r: int, i: int|
            0 <= r < self.rooms@.len() && 0 <= i < self.rooms@[r]@.len() ==> (
            #[trigger] self.rooms@[r]@[i])@ < self.issued
        &&& forall|r1: int, i1: int, r2: int, i2: int|
            0 <= r1 < self.rooms@.len() && 0 <= i1 < self.rooms@[r1]@.len() && 0 <= r2
                < self.rooms@.len() && 0 <= i2 < self.rooms@[r2]@.len() && (
            #[trigger] self.rooms@[r1]@[i1])@ == (#[trigger] self.rooms@[r2]@[i2])@ ==> r1 == r2
                && i1 == i2
    }

    /// How many identities have been handed out so far.
    closed spec fn issued(&self) -> nat {
        self.issued as nat
    }

    /// A table without rooms.
    fn new() -> (table: RoomTable)
        ensures
            table.wf(),
            table@ == RoomMap::empty(),
            table.issued() == 0,
    {
        let table = RoomTable { index: StringHashMap::new(), rooms: Vec::new(), issued: 0 };
        assert(table@ =~= RoomMap::empty());
        table
    }

    /// Where the members of `room` are kept, if the room is known.
    fn slot_of(&self, room: &str) -> (slot: Option<usize>)
        requires
            self.wf(),
        ensures
            match slot {
                Some(at) => self.index@.contains_key(room@) && self.index@[room@] == at && at
                    < self.rooms@.len(),
                None => !self.index@.contains_key(room@),
            },
    {
        match self.index.get(room) {
            Some(at) => Some(*at),
            None => None,
        }
    }

    /// In a well-formed table every member carries an identity that was
    /// issued, and no identity occurs twice.
    proof fn lemma_wf_consistent(&self)
        requires
            self.wf(),
        ensures
            consistent(self@, self.issued()),
    {
        assert forall|room: Seq<char>, i: int|
            self@.contains_key(room) && 0 <= i < self@[room].len() implies (#[trigger] self@[room][i])
            < self.issued() by {
            let r = self.index@[room] as int;
            assert(self@[room][i] == self.rooms@[r]@[i]@);
        }
        assert forall|r1: Seq<char>, i1: int, r2: Seq<char>, i2: int|
            self@.contains_key(r1) && 0 <= i1 < self@[r1].len() && self@.contains_key(r2) && 0
                <= i2 < self@[r2].len() && #[trigger] self@[r1][i1] == #[trigger] self@[r2][i2]
            implies r1 == r2 && i1 == i2 by {
            let s1 = self.index@[r1] as int;
            let s2 = self.index@[r2] as int;
            assert(self@[r1][i1] == self.rooms@[s1]@[i1]@);
            assert(self@[r2][i2] == self.rooms@[s2]@[i2]@);
        }
    }

    /// Stores a new handle under the next identity, at the end of `room`.
    fn join(&mut self, room: &str, tx: UnboundedSender<String>) -> (id: u64)
        requires
            old(self).wf(),
            old(self).issued() < u64::MAX,
        ensures
            final(self).wf(),
            id == old(self).issued(),
            final(self).issued() == old(self).issued() + 1,
            final(self)@ == joined(old(self)@, room@, id),
            !registered(old(self)@, id),
    {
        proof {
            old(self).lemma_wf_consistent();
        }
        let id = self.issued;
        let handle = ConnectionHandle::new(id, tx);
        let slot = self.slot_of(room);
        self.issued = id + 1;
        match slot {
            Some(at) => {
                self.rooms[at].push(handle);
            },
            None => {
                let mut members: Vec<ConnectionHandle> = Vec::new();
                members.push(handle);
                let at: usize = self.rooms.len();
                self.rooms.push(members);
                self.index.insert(String::from_str(room), at);
            },
        }
        proof {
            let after = joined(old(self)@, room@, id);
            assert forall|name: Seq<char>| after.contains_key(name) implies self@.contains_key(name)
                && #[trigger] self@[name] == after[name] by {
                let at = self.index@[name] as int;
                if name == room@ {
                    assert(self@[name] =~= members_of(old(self)@, room@).push(id));
                } else {
                    assert(self.rooms@[at] == old(self).rooms@[at]);
                }
            }
            assert(self@ =~= after);
        }
        id
    }

    /// Takes every handle with identity `id` out of `room`.
    fn leave(&mut self, room: &str, id: u64)
        requires
            old(self).wf(),
        ensures
            final(self).wf(),
            final(self).issued() == old(self).issued(),
            final(self)@ == left(old(self)@, room@, id),
    {
        let slot = self.slot_of(room);
        if let Some(at) = slot {
            let ghost before = ids_of(self.rooms@[at as int]@);
            let mut i: usize = 0;
            while i < self.rooms[at].len()
                invariant
                    self.wf(),
                    self.index == old(self).index,
                    self.issued == old(self).issued,
                    self.rooms@.len() == old(self).rooms@.len(),
                    at < self.rooms@.len(),
                    forall|r: int|
                        0 <= r < self.rooms@.len() && r != at ==> self.rooms@[r] == old(
                            self,
                        ).rooms@[r],
                    before == ids_of(old(self).rooms@[at as int]@),
                    i <= self.rooms@[at as int]@.len(),
                    without(ids_of(self.rooms@[at as int]@), id) == without(before, id),
                    forall|j: int| 0 <= j < i ==> (#[trigger] self.rooms@[at as int]@[j])@ != id,
                decreases self.rooms@[at as int]@.len() - i,
            {
                if self.rooms[at][i].id() == id {
                    proof {
                        lemma_without_remove(ids_of(self.rooms@[at as int]@), i as int, id);
                        assert(ids_of(self.rooms@[at as int]@.remove(i as int)) =~= ids_of(
                            self.rooms@[at as int]@,
                        ).remove(i as int));
                    }
                    self.rooms[at].remove(i);
                } else {
                    i += 1;
                }
            }
            proof {
                lemma_without_absent(ids_of(self.rooms@[at as int]@), id);
                let after = left(old(self)@, room@, id);
                assert forall|name: Seq<char>| after.contains_key(name) implies self@.contains_key(
                    name,
                ) && #[trigger] self@[name] == after[name] by {
                    let r = self.index@[name] as int;
                    if name != room@ {
                        assert(self.rooms@[r] == old(self).rooms@[r]);
                    }
                }
                assert(self@ =~= after);
            }
        }
    }

    /// Copies the handles stored for `room`.
    fn members(&self, room: &str) -> (snapshot: Vec<ConnectionHandle>)
        requires
            self.wf(),
        ensures
            ids_of(snapshot@) == members_of(self@, room@),
    {
        let mut snapshot: Vec<ConnectionHandle> = Vec::new();
        if let Some(at) = self.slot_of(room) {
            let stored = &self.rooms[at];
            let mut i: usize = 0;
            while i < stored.len()
                invariant
                    i <= stored@.len(),
                    snapshot@.len() == i,
                    forall|j: int| 0 <= j < i ==> (#[trigger] snapshot@[j])@ == stored@[j]@,
                decreases stored@.len() - i,
            {
                snapshot.push(stored[i].duplicate());
                i += 1;
            }
            assert(ids_of(snapshot@) =~= ids_of(stored@));
        } else {
            assert(ids_of(snapshot@) =~= Seq::<u64>::empty());
        }
        snapshot
    }
}

/// The room registry: the one place where membership changes. It hands each
/// connection that joins an identity of its own, so that a connection can be
/// taken out again without touching any other.
pub struct RoomRegistry {
    table: RoomTable,
}

impl View for RoomRegistry {
    type V = RoomMap;

    closed spec fn view(&self) -> RoomMap {
        self.table@
    }
}

impl RoomRegistry {
    /// The table is well-formed whenever anybody can look. To change it, a
    /// method swaps an empty table in, works on the real one, and swaps it
    /// back: both are well-formed, so the invariant is never suspended.
    #[verifier::type_invariant]
    spec fn inv(&self) -> bool {
        self.table.wf()
    }

    /// How many identities this registry has handed out so far.
    pub closed spec fn issued(&self) -> nat {
        self.table.issued()
    }

    /// A registry that knows no room.
    pub fn new() -> (registry: RoomRegistry)
        ensures
            registry@ == RoomMap::empty(),
            registry.issued() == 0,
    {
        RoomRegistry { table: RoomTable::new() }
    }

    /// Whether another identity can still be handed out.
    pub fn has_capacity(&self) -> (free: bool)
        ensures
            free == (self.issued() < u64::MAX),
    {
        self.table.issued < u64::MAX
    }

    /// Whether `room` is known: somebody joined it at some time, whether or
    /// not anybody is left in it.
    pub fn contains_room(&self, room: &str) -> (known: bool)
        ensures
            known == self@.contains_key(room@),
    {
        self.table.index.contains_key(room)
    }

    /// Adds a connection to `room`, creating the room if it is new, and
    /// returns the identity under which the connection is now registered.
    /// The identity is fresh: no member of any room has it.
    pub fn join(&mut self, room: &str, tx: UnboundedSender<String>) -> (id: u64)
        requires
            old(self).issued() < u64::MAX,
        ensures
            id == old(self).issued(),
            final(self).issued() == old(self).issued() + 1,
            final(self)@ == joined(old(self)@, room@, id),
            !registered(old(self)@, id),
            consistent(final(self)@, final(self).issued()),
    {
        proof {
            use_type_invariant(&*self);
        }
        let mut table = RoomTable::new();
        core::mem::swap(&mut self.table, &mut table);
        let id = table.join(room, tx);
        proof {
            table.lemma_wf_consistent();
        }
        core::mem::swap(&mut self.table, &mut table);
        id
    }

    /// Removes from `room` every entry with identity `id`. Nothing happens
    /// when the room is not known or holds no such entry; a room that becomes
    /// empty stays known.
    pub fn leave(&mut self, room: &str, id: u64)
        ensures
            final(self).issued() == old(self).issued(),
            final(self)@ == left(old(self)@, room@, id),
            consistent(final(self)@, final(self).issued()),
    {
        proof {
            use_type_invariant(&*self);
        }
        let mut table = RoomTable::new();
        core::mem::swap(&mut self.table, &mut table);
        table.leave(room, id);
        proof {
            table.lemma_wf_consistent();
        }
        core::mem::swap(&mut self.table, &mut table);
    }

    /// A snapshot of the members of `room`, in the order they joined; empty
    /// when the room is not known. No identity occurs twice in it.
    pub fn members(&self, room: &str) -> (snapshot: Vec<ConnectionHandle>)
        ensures
            ids_of(snapshot@) == members_of(self@, room@),
            consistent(self@, self.issued()),
    {
        proof {
            use_type_invariant(self);
            self.table.lemma_wf_consistent();
        }
        self.table.members(room)
    }
}

} // verus!
