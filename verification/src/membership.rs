//! Membership as mathematics: which identities a room holds, how joining
//! and leaving change that, and what holds of every run of such changes.

use vstd::prelude::*;

verus! {

/// Mathematical value of a registry: each known room with the identities of
/// its members, in the order they joined.
pub type RoomMap = Map<Seq<char>, Seq<u64>>;

/// The members of `room`; a room nobody ever joined has none.
pub open spec fn members_of(m: RoomMap, room: Seq<char>) -> Seq<u64> {
    if m.contains_key(room) {
        m[room]
    } else {
        Seq::empty()
    }
}

/// The registry after `id` joined `room`: the room exists and `id` is its
/// newest member.
pub open spec fn joined(m: RoomMap, room: Seq<char>, id: u64) -> RoomMap {
    m.insert(room, members_of(m, room).push(id))
}

/// The test that tells every other identity from `id`.
pub open spec fn other_than(id: u64) -> spec_fn(u64) -> bool {
    |other: u64| other != id
}

/// `members` without any entry equal to `id`, the others in their order.
pub open spec fn without(members: Seq<u64>, id: u64) -> Seq<u64> {
    members.filter(other_than(id))
}

/// The registry after `id` left `room`. A room that is not known stays
/// unknown; a known room stays known even when it becomes empty.
pub open spec fn left(m: RoomMap, room: Seq<char>, id: u64) -> RoomMap {
    if m.contains_key(room) {
        m.insert(room, without(m[room], id))
    } else {
        m
    }
}

/// Whether `id` is a member of some room.
pub open spec fn registered(m: RoomMap, id: u64) -> bool {
    exists|room: Seq<char>| m.contains_key(room) && #[trigger] m[room].contains(id)
}

/// Every member was issued its identity by this registry, and no identity
/// occurs twice: not within a room and not across rooms.
pub open spec fn consistent(m: RoomMap, issued: nat) -> bool {
    &&& forall|room: Seq<char>, i: int|
        m.contains_key(room) && 0 <= i < m[room].len() ==> (#[trigger] m[room][i]) < issued
    &&& forall|r1: Seq<char>, i1: int, r2: Seq<char>, i2: int|
        m.contains_key(r1) && 0 <= i1 < m[r1].len() && m.contains_key(r2) && 0 <= i2 < m[r2].len()
            && #[trigger] m[r1][i1] == #[trigger] m[r2][i2] ==> r1 == r2 && i1 == i2
}

/// Taking out an entry equal to `id` does not change what is left once all
/// of them are gone.
pub proof fn lemma_without_remove(members: Seq<u64>, i: int, id: u64)
    requires
        0 <= i < members.len(),
        members[i] == id,
    ensures
        without(members.remove(i), id) == without(members, id),
{
    let keep = other_than(id);
    let head = members.subrange(0, i);
    let tail = members.subrange(i + 1, members.len() as int);
    let one = seq![members[i]];
    assert(members =~= head + one + tail);
    assert(members.remove(i) =~= head + tail);
    Seq::filter_distributes_over_add(head + one, tail, keep);
    Seq::filter_distributes_over_add(head, one, keep);
    Seq::filter_distributes_over_add(head, tail, keep);
    assert(one.filter(keep) =~= Seq::<u64>::empty()) by {
        reveal_with_fuel(Seq::filter, 2);
    }
    assert(head.filter(keep) + one.filter(keep) =~= head.filter(keep));
}

/// Where no entry equals `id` there is nothing to take out.
pub proof fn lemma_without_absent(members: Seq<u64>, id: u64)
    requires
        forall|j: int| 0 <= j < members.len() ==> members[j] != id,
    ensures
        without(members, id) == members,
    decreases members.len(),
{
    let keep = other_than(id);
    if members.len() > 0 {
        lemma_without_absent(members.drop_last(), id);
        assert(members.filter(keep) == members.drop_last().filter(keep).push(members.last())) by {
            reveal(Seq::filter);
            assert(keep(members.last()));
        }
        assert(members.drop_last().push(members.last()) =~= members);
    }
}

/// A connection that joins becomes a member of its room, and of that room
/// alone: the registry stays consistent, so no other room holds its identity.
pub proof fn lemma_join_registers_once(m: RoomMap, issued: nat, room: Seq<char>)
    requires
        consistent(m, issued),
        issued < u64::MAX,
    ensures
        consistent(joined(m, room, issued as u64), issued + 1),
        members_of(joined(m, room, issued as u64), room).contains(issued as u64),
        !registered(m, issued as u64),
{
    let id = issued as u64;
    let after = joined(m, room, id);
    let before = members_of(m, room);
    assert(after[room] == before.push(id));
    assert(after[room][before.len() as int] == id);
    assert forall|r: Seq<char>, i: int|
        after.contains_key(r) && 0 <= i < after[r].len() implies (#[trigger] after[r][i]) < issued
        + 1 by {
        if r != room {
            assert(after[r][i] == m[r][i]);
        } else if i < before.len() {
            assert(after[r][i] == m[r][i]);
        }
    }
    assert forall|r1: Seq<char>, i1: int, r2: Seq<char>, i2: int|
        after.contains_key(r1) && 0 <= i1 < after[r1].len() && after.contains_key(r2) && 0 <= i2
            < after[r2].len() && #[trigger] after[r1][i1] == #[trigger] after[r2][i2] implies r1
        == r2 && i1 == i2 by {
        let old1 = r1 != room || i1 < before.len();
        let old2 = r2 != room || i2 < before.len();
        if old1 {
            assert(after[r1][i1] == m[r1][i1]);
        }
        if old2 {
            assert(after[r2][i2] == m[r2][i2]);
        }
    }
    if registered(m, id) {
        let r = choose|r: Seq<char>| m.contains_key(r) && #[trigger] m[r].contains(id);
        let i = choose|i: int| 0 <= i < m[r].len() && m[r][i] == id;
        assert(m[r][i] < issued);
    }
}

/// A connection that leaves its room is a member of no room afterwards, and
/// every other membership is as it was.
pub proof fn lemma_leave_unregisters(m: RoomMap, issued: nat, room: Seq<char>, id: u64)
    requires
        consistent(m, issued),
        members_of(m, room).contains(id),
    ensures
        consistent(left(m, room, id), issued),
        !registered(left(m, room, id), id),
        forall|other: u64, r: Seq<char>|
            other != id ==> (#[trigger] members_of(left(m, room, id), r).contains(other)
                <==> members_of(m, r).contains(other)),
{
    let after = left(m, room, id);
    let rest = without(m[room], id);
    assert(m.contains_key(room));
    assert(after[room] == rest);
    lemma_without_is_ordered_part(m[room], id);
    let at = choose|at: spec_fn(int) -> int| is_ordered_part(rest, m[room], at);
    assert forall|r: Seq<char>, i: int|
        after.contains_key(r) && 0 <= i < after[r].len() implies (#[trigger] after[r][i])
        < issued by {
        if r == room {
            assert(after[r][i] == m[room][at(i)]);
        } else {
            assert(after[r][i] == m[r][i]);
        }
    }
    assert forall|r1: Seq<char>, i1: int, r2: Seq<char>, i2: int|
        after.contains_key(r1) && 0 <= i1 < after[r1].len() && after.contains_key(r2) && 0 <= i2
            < after[r2].len() && #[trigger] after[r1][i1] == #[trigger] after[r2][i2] implies r1
        == r2 && i1 == i2 by {
        let j1 = if r1 == room {
            at(i1)
        } else {
            i1
        };
        let j2 = if r2 == room {
            at(i2)
        } else {
            i2
        };
        assert(after[r1][i1] == m[r1][j1]);
        assert(after[r2][i2] == m[r2][j2]);
        assert(r1 == r2 && j1 == j2);
        if r1 == room && i1 != i2 {
            if i1 < i2 {
                assert(at(i1) < at(i2));
            } else {
                assert(at(i2) < at(i1));
            }
        }
    }
    if registered(after, id) {
        let r = choose|r: Seq<char>| after.contains_key(r) && #[trigger] after[r].contains(id);
        if r == room {
            lemma_without_contains(m[room], id, id);
        } else {
            let i = choose|i: int| 0 <= i < m[r].len() && m[r][i] == id;
            let j = choose|j: int| 0 <= j < m[room].len() && m[room][j] == id;
            assert(m[r][i] == m[room][j]);
        }
    }
    assert forall|other: u64, r: Seq<char>| other != id implies (#[trigger] members_of(
        after,
        r,
    ).contains(other) <==> members_of(m, r).contains(other)) by {
        if r == room {
            lemma_without_contains(m[room], id, other);
        }
    }
}

/// Whether `part` is made of entries of `whole`, in their order: `at` tells
/// for each position of `part` where its entry stands in `whole`.
pub open spec fn is_ordered_part(part: Seq<u64>, whole: Seq<u64>, at: spec_fn(int) -> int) -> bool {
    &&& forall|i: int|
        0 <= i < part.len() ==> 0 <= #[trigger] at(i) < whole.len() && part[i] == whole[at(i)]
    &&& forall|i: int, j: int| 0 <= i < j < part.len() ==> #[trigger] at(i) < #[trigger] at(j)
}

/// What is left after taking an identity out is made of the entries that
/// were there, in their order.
proof fn lemma_without_is_ordered_part(members: Seq<u64>, id: u64)
    ensures
        exists|at: spec_fn(int) -> int| is_ordered_part(without(members, id), members, at),
    decreases members.len(),
{
    let keep = other_than(id);
    let rest = without(members, id);
    reveal(Seq::filter);
    if members.len() == 0 {
        let at = |i: int| i;
        assert(is_ordered_part(rest, members, at));
    } else {
        let init = members.drop_last();
        lemma_without_is_ordered_part(init, id);
        let inner = choose|at: spec_fn(int) -> int| is_ordered_part(without(init, id), init, at);
        let shorter = without(init, id);
        let at = |i: int|
            if i < shorter.len() {
                inner(i)
            } else {
                members.len() - 1
            };
        assert forall|i: int| 0 <= i < rest.len() implies 0 <= #[trigger] at(i) < members.len()
            && rest[i] == members[at(i)] by {
            if i < shorter.len() {
                assert(rest[i] == shorter[i]);
                assert(init[inner(i)] == members[inner(i)]);
            }
        }
        assert forall|i: int, j: int| 0 <= i < j < rest.len() implies #[trigger] at(i)
            < #[trigger] at(j) by {
            if j < shorter.len() {
                assert(inner(i) < inner(j));
            } else {
                assert(0 <= inner(i) < init.len());
            }
        }
        assert(is_ordered_part(rest, members, at));
    }
}

/// One change to the registry.
pub enum RegistryOp {
    Join { room: Seq<char>, id: u64 },
    Leave { room: Seq<char>, id: u64 },
}

/// The registry after one change.
pub open spec fn apply(m: RoomMap, op: RegistryOp) -> RoomMap {
    match op {
        RegistryOp::Join { room, id } => joined(m, room, id),
        RegistryOp::Leave { room, id } => left(m, room, id),
    }
}

/// The registry after a run of changes, applied in order.
pub open spec fn apply_all(m: RoomMap, ops: Seq<RegistryOp>) -> RoomMap
    decreases ops.len(),
{
    if ops.len() == 0 {
        m
    } else {
        apply(apply_all(m, ops.drop_last()), ops.last())
    }
}

/// The identity that a change is about.
pub open spec fn subject(op: RegistryOp) -> u64 {
    match op {
        RegistryOp::Join { id, .. } => id,
        RegistryOp::Leave { id, .. } => id,
    }
}

/// A change concerns one identity: whether any other is a member of a room
/// is the same before and after. So between its own join and its own leave a
/// connection stays a member of its room, whatever other connections do.
pub proof fn lemma_change_concerns_its_subject(
    m: RoomMap,
    op: RegistryOp,
    room: Seq<char>,
    id: u64,
)
    requires
        subject(op) != id,
    ensures
        members_of(apply(m, op), room).contains(id) <==> members_of(m, room).contains(id),
{
    let before = members_of(m, room);
    let after = members_of(apply(m, op), room);
    match op {
        RegistryOp::Join { room: r, id: x } => {
            if r == room {
                assert(after == before.push(x));
                if before.contains(id) {
                    let i = choose|i: int| 0 <= i < before.len() && before[i] == id;
                    assert(after[i] == id);
                }
                if after.contains(id) {
                    let i = choose|i: int| 0 <= i < after.len() && after[i] == id;
                    assert(before[i] == id);
                }
            }
        },
        RegistryOp::Leave { room: r, id: x } => {
            if r == room && m.contains_key(room) {
                lemma_without_contains(before, x, id);
            }
        },
    }
}

/// The identities that `ops` join to `room`.
pub open spec fn joined_ids(ops: Seq<RegistryOp>, room: Seq<char>) -> Set<u64> {
    Set::new(
        |id: u64|
            exists|i: int| 0 <= i < ops.len() && #[trigger] ops[i] == (RegistryOp::Join { room, id }),
    )
}

/// The identities that `ops` take out of `room`.
pub open spec fn left_ids(ops: Seq<RegistryOp>, room: Seq<char>) -> Set<u64> {
    Set::new(
        |id: u64|
            exists|i: int| 0 <= i < ops.len() && #[trigger] ops[i] == (RegistryOp::Leave { room, id }),
    )
}

/// Whether `ops` joins `id` to `room` at some point and does not take it out
/// again afterwards.
pub open spec fn stays(ops: Seq<RegistryOp>, room: Seq<char>, id: u64) -> bool {
    exists|i: int|
        0 <= i < ops.len() && #[trigger] ops[i] == (RegistryOp::Join { room, id }) && forall|k: int|
            i < k < ops.len() ==> #[trigger] ops[k] != (RegistryOp::Leave { room, id })
}

/// Whether no identity is joined to `room` for good after it was taken out
/// of it: where `ops` holds both a join and a leave of one identity, a leave
/// follows the join.
pub open spec fn orderly(ops: Seq<RegistryOp>, room: Seq<char>) -> bool {
    forall|id: u64| #[trigger] left_ids(ops, room).contains(id) ==> !stays(ops, room, id)
}

/// What is left of `members` holds an identity exactly when `members` held
/// it and it is not the one taken out.
proof fn lemma_without_contains(members: Seq<u64>, gone: u64, id: u64)
    ensures
        without(members, gone).contains(id) <==> members.contains(id) && id != gone,
{
    let keep = other_than(gone);
    let rest = without(members, gone);
    if members.contains(id) && id != gone {
        let i = choose|i: int| 0 <= i < members.len() && members[i] == id;
        members.lemma_filter_contains(keep, i);
    }
    if rest.contains(id) {
        let i = choose|i: int| 0 <= i < rest.len() && rest[i] == id;
        members.lemma_filter_pred(keep, i);
        members.lemma_filter_contains_rev(keep, id);
    }
}

/// After any run of changes to an empty registry, a room holds exactly the
/// identities that were joined to it and not taken out afterwards.
pub proof fn lemma_members_are_those_that_stay(ops: Seq<RegistryOp>, room: Seq<char>, id: u64)
    ensures
        members_of(apply_all(RoomMap::empty(), ops), room).contains(id) <==> stays(ops, room, id),
    decreases ops.len(),
{
    let after = members_of(apply_all(RoomMap::empty(), ops), room);
    if ops.len() == 0 {
        assert(!after.contains(id));
    } else {
        let init = ops.drop_last();
        let last = ops.last();
        let n = init.len() as int;
        let m = apply_all(RoomMap::empty(), init);
        let before = members_of(m, room);
        lemma_members_are_those_that_stay(init, room, id);
        match last {
            RegistryOp::Join { room: r, id: x } => {
                if r == room {
                    assert(after == before.push(x));
                    assert(after.contains(id) <==> before.contains(id) || x == id) by {
                        if before.contains(id) {
                            let i = choose|i: int| 0 <= i < before.len() && before[i] == id;
                            assert(after[i] == id);
                        }
                        if x == id {
                            assert(after[before.len() as int] == id);
                        }
                    }
                } else {
                    assert(after == before);
                }
            },
            RegistryOp::Leave { room: r, id: x } => {
                if r == room {
                    lemma_without_contains(before, x, id);
                    if m.contains_key(room) {
                        assert(after == without(before, x));
                    } else {
                        assert(after == before);
                        assert(!before.contains(id));
                    }
                } else {
                    assert(after == before);
                }
            },
        }
        if stays(init, room, id) && last != (RegistryOp::Leave { room, id }) {
            let i = choose|i: int|
                0 <= i < init.len() && #[trigger] init[i] == (RegistryOp::Join { room, id })
                    && forall|k: int|
                    i < k < init.len() ==> #[trigger] init[k] != (RegistryOp::Leave { room, id });
            assert(ops[i] == init[i]);
            assert forall|k: int| i < k < ops.len() implies #[trigger] ops[k] != (RegistryOp::Leave {
                room,
                id,
            }) by {
                if k < n {
                    assert(ops[k] == init[k]);
                }
            }
            assert(stays(ops, room, id));
        }
        if last == (RegistryOp::Join { room, id }) {
            assert(ops[n] == last);
            assert(stays(ops, room, id));
        }
        if stays(ops, room, id) {
            let i = choose|i: int|
                0 <= i < ops.len() && #[trigger] ops[i] == (RegistryOp::Join { room, id })
                    && forall|k: int|
                    i < k < ops.len() ==> #[trigger] ops[k] != (RegistryOp::Leave { room, id });
            if i < n {
                assert(init[i] == ops[i]);
                assert forall|k: int| i < k < init.len() implies #[trigger] init[k] != (
                RegistryOp::Leave { room, id }) by {
                    assert(init[k] == ops[k]);
                }
                assert(stays(init, room, id));
                assert(ops[n] != (RegistryOp::Leave { room, id }));
            }
        }
    }
}

/// However joins and leaves of many callers interleave, once they have all
/// been applied to an empty registry the members of a room are, as a set,
/// the identities joined to it minus those taken out of it. This holds of
/// every orderly run: one in which no identity is joined for good to a room
/// that it was taken out of before.
pub proof fn lemma_members_are_joined_minus_left(ops: Seq<RegistryOp>, room: Seq<char>)
    requires
        orderly(ops, room),
    ensures
        members_of(apply_all(RoomMap::empty(), ops), room).to_set() == joined_ids(
            ops,
            room,
        ).difference(left_ids(ops, room)),
{
    let members = members_of(apply_all(RoomMap::empty(), ops), room).to_set();
    let expected = joined_ids(ops, room).difference(left_ids(ops, room));
    assert forall|id: u64| members.contains(id) <==> expected.contains(id) by {
        lemma_members_are_those_that_stay(ops, room, id);
        if stays(ops, room, id) {
            assert(joined_ids(ops, room).contains(id));
            assert(!left_ids(ops, room).contains(id));
        }
        if expected.contains(id) {
            let i = choose|i: int|
                0 <= i < ops.len() && #[trigger] ops[i] == (RegistryOp::Join { room, id });
            assert forall|k: int| i < k < ops.len() implies #[trigger] ops[k] != (RegistryOp::Leave {
                room,
                id,
            }) by {
                if ops[k] == (RegistryOp::Leave { room, id }) {
                    assert(left_ids(ops, room).contains(id));
                }
            }
            assert(stays(ops, room, id));
        }
    }
    assert(members =~= expected);
}

/// Two orderly runs that join the same identities to a room and take the
/// same identities out of it leave the room with the same set of members,
/// in whatever order each run makes its changes.
pub proof fn lemma_interleaving_is_immaterial(
    a: Seq<RegistryOp>,
    b: Seq<RegistryOp>,
    room: Seq<char>,
)
    requires
        orderly(a, room),
        orderly(b, room),
        joined_ids(a, room) == joined_ids(b, room),
        left_ids(a, room) == left_ids(b, room),
    ensures
        members_of(apply_all(RoomMap::empty(), a), room).to_set() == members_of(
            apply_all(RoomMap::empty(), b),
            room,
        ).to_set(),
{
    lemma_members_are_joined_minus_left(a, room);
    lemma_members_are_joined_minus_left(b, room);
}

} // verus!
