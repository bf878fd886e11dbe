//! The connection registry and broadcast hub: the single owner of the room
//! membership table. A room exists implicitly as an entry of the table and
//! is never removed, even when its member list becomes empty.
//!
//! The table maps a room identifier to the sequence of member entries, each
//! a (user identifier, outbound-send capability) pair with set semantics:
//! inserting a pair twice is a no-op, and disconnecting removes every entry
//! of that user in that room.
//!
//! Each operation's contract says that the new table is exactly
//! `spec_connect`/`spec_disconnect` of the old one, so the laws stated over
//! histories of `RegistryOp` apply to every sequence of calls.

use vstd::prelude::*;

use crate::Capability;
use crate::envelope::Message;
use crate::session::{SessionAction, SessionActionView};

verus! {

/// Model of one member entry: the user identifier with its capability.
pub type MemberView = (Seq<char>, Capability);

/// Model of the whole registry: room identifier to member entries, in
/// insertion order.
pub type RegistryView = Map<Seq<char>, Seq<MemberView>>;

/// The member entries of `room`, or empty if the room was never touched.
pub open spec fn room_members(m: RegistryView, room: Seq<char>) -> Seq<MemberView> {
    if m.dom().contains(room) {
        m[room]
    } else {
        Seq::empty()
    }
}

/// Set semantics of insertion: appending the pair only when it is new.
pub open spec fn add_member(members: Seq<MemberView>, user: Seq<char>, capability: Capability) -> Seq<MemberView> {
    if members.contains((user, capability)) {
        members
    } else {
        members.push((user, capability))
    }
}

/// Every entry of `user` removed, the order of the others kept.
pub open spec fn remove_user(members: Seq<MemberView>, user: Seq<char>) -> Seq<MemberView>
    decreases members.len(),
{
    if members.len() == 0 {
        members
    } else {
        let rest = remove_user(members.drop_last(), user);
        if members.last().0 == user {
            rest
        } else {
            rest.push(members.last())
        }
    }
}

/// What `Connect(room, user, capability)` does to the registry. An unknown
/// room is created implicitly.
pub open spec fn spec_connect(m: RegistryView, room: Seq<char>, user: Seq<char>, capability: Capability) -> RegistryView {
    m.insert(room, add_member(room_members(m, room), user, capability))
}

/// What `Disconnect(room, user)` does to the registry. The room entry stays
/// even when it becomes empty; an unknown room is left untouched.
pub open spec fn spec_disconnect(m: RegistryView, room: Seq<char>, user: Seq<char>) -> RegistryView {
    if m.dom().contains(room) {
        m.insert(room, remove_user(m[room], user))
    } else {
        m
    }
}

/// The effective membership of a room: its entries as a set.
pub open spec fn member_set(m: RegistryView, room: Seq<char>) -> Set<MemberView> {
    room_members(m, room).to_set()
}

/// The capabilities a broadcast to `room` delivers to, in member order.
pub open spec fn broadcast_targets(m: RegistryView, room: Seq<char>) -> Seq<Capability> {
    room_members(m, room).map_values(|p: MemberView| p.1)
}

/// What one submitted action does to the registry: a connect or disconnect
/// operates on the table, everything else leaves it untouched.
pub open spec fn spec_submit(m: RegistryView, action: SessionActionView) -> RegistryView {
    match action {
        SessionActionView::Connect { room_id, user_id, capability } => spec_connect(
            m,
            room_id,
            user_id,
            capability,
        ),
        SessionActionView::Disconnect { room_id, user_id } => spec_disconnect(m, room_id, user_id),
        _ => m,
    }
}

/// Unfolding `remove_user` from the front of the sequence.
proof fn lemma_remove_user_push(members: Seq<MemberView>, x: MemberView, user: Seq<char>)
    ensures
        remove_user(members.push(x), user) == if x.0 == user {
            remove_user(members, user)
        } else {
            remove_user(members, user).push(x)
        },
{
    assert(members.push(x).drop_last() =~= members);
    assert(members.push(x).last() == x);
}

/// An entry survives `remove_user` exactly when it was there and is not the
/// removed user's.
proof fn lemma_remove_user_contains(members: Seq<MemberView>, user: Seq<char>, p: MemberView)
    ensures
        remove_user(members, user).contains(p) <==> members.contains(p) && p.0 != user,
    decreases members.len(),
{
    broadcast use vstd::seq_lib::lemma_seq_contains_after_push;

    if members.len() > 0 {
        let prefix = members.drop_last();
        lemma_remove_user_contains(prefix, user, p);
        assert(members.contains(p) <==> prefix.contains(p) || p == members.last()) by {
            assert(prefix.push(members.last()) =~= members);
        }
    }
}

/// Removing the same user twice removes no more than removing once.
proof fn lemma_remove_user_idempotent(members: Seq<MemberView>, user: Seq<char>)
    ensures
        remove_user(remove_user(members, user), user) == remove_user(members, user),
    decreases members.len(),
{
    if members.len() > 0 {
        let prefix = members.drop_last();
        lemma_remove_user_idempotent(prefix, user);
        if members.last().0 != user {
            lemma_remove_user_push(remove_user(prefix, user), members.last(), user);
        }
    }
}

/// Entries with pairwise distinct (user, capability) pairs: set semantics.
spec fn distinct_members(members: Seq<MemberView>) -> bool {
    forall|i: int, j: int| 0 <= i < j < members.len() ==> members[i] != members[j]
}

proof fn lemma_remove_user_distinct(members: Seq<MemberView>, user: Seq<char>)
    requires
        distinct_members(members),
    ensures
        distinct_members(remove_user(members, user)),
    decreases members.len(),
{
    if members.len() > 0 {
        let prefix = members.drop_last();
        assert(distinct_members(prefix)) by {
            assert(forall|i: int| 0 <= i < prefix.len() ==> prefix[i] == members[i]);
        }
        lemma_remove_user_distinct(prefix, user);
        if members.last().0 != user {
            let rest = remove_user(prefix, user);
            assert(!rest.contains(members.last())) by {
                lemma_remove_user_contains(prefix, user, members.last());
                if prefix.contains(members.last()) {
                    let i = choose|i: int| 0 <= i < prefix.len() && prefix[i] == members.last();
                    assert(members[i] == members[members.len() - 1]);
                }
            }
            assert forall|i: int, j: int| 0 <= i < j < rest.push(members.last()).len()
                implies rest.push(members.last())[i] != rest.push(members.last())[j] by {
                if j == rest.len() {
                    assert(rest.contains(rest[i]));
                }
            }
        }
    }
}

/// One registry operation, as a session submits it to the hub.
pub enum RegistryOp {
    Connect { room: Seq<char>, user: Seq<char>, capability: Capability },
    Disconnect { room: Seq<char>, user: Seq<char> },
}

/// The registry after one operation.
pub open spec fn apply_op(m: RegistryView, op: RegistryOp) -> RegistryView {
    match op {
        RegistryOp::Connect { room, user, capability } => spec_connect(m, room, user, capability),
        RegistryOp::Disconnect { room, user } => spec_disconnect(m, room, user),
    }
}

/// The registry after a whole history of operations, applied in order.
pub open spec fn apply_ops(m: RegistryView, ops: Seq<RegistryOp>) -> RegistryView
    decreases ops.len(),
{
    if ops.len() == 0 {
        m
    } else {
        apply_op(apply_ops(m, ops.drop_last()), ops.last())
    }
}

/// Index `i` is a connect of `(user, capability)` to `room` that no later
/// disconnect of that user from that room cancels.
pub open spec fn surviving_connect(ops: Seq<RegistryOp>, room: Seq<char>, user: Seq<char>, capability: Capability, i: int) -> bool {
    &&& 0 <= i < ops.len()
    &&& ops[i] == (RegistryOp::Connect { room, user, capability })
    &&& forall|j: int| i < j < ops.len() ==> ops[j] != (RegistryOp::Disconnect { room, user })
}

/// How one connect changes each room's effective membership: the pair is
/// added to its room's set (a no-op when already present) and every other
/// room is untouched.
proof fn lemma_connect_member_set(m: RegistryView, room: Seq<char>, user: Seq<char>, capability: Capability, r2: Seq<char>)
    ensures
        member_set(spec_connect(m, room, user, capability), r2) == if r2 == room {
            member_set(m, room).insert((user, capability))
        } else {
            member_set(m, r2)
        },
{
    broadcast use vstd::seq_lib::lemma_seq_contains_after_push;

    let m1 = spec_connect(m, room, user, capability);
    if r2 == room {
        let rm = room_members(m, room);
        assert(room_members(m1, room) == add_member(rm, user, capability));
        assert(member_set(m1, room) =~= member_set(m, room).insert((user, capability)));
    } else {
        assert(room_members(m1, r2) == room_members(m, r2));
    }
}

/// How one disconnect changes each room's effective membership: every entry
/// of that user leaves its room's set and every other room is untouched.
proof fn lemma_disconnect_member_set(m: RegistryView, room: Seq<char>, user: Seq<char>, r2: Seq<char>)
    ensures
        member_set(spec_disconnect(m, room, user), r2) == if r2 == room {
            Set::new(|p: MemberView| member_set(m, room).contains(p) && p.0 != user)
        } else {
            member_set(m, r2)
        },
{
    let m1 = spec_disconnect(m, room, user);
    if r2 == room {
        if m.dom().contains(room) {
            assert(room_members(m1, room) == remove_user(m[room], user));
            assert forall|p: MemberView|
                member_set(m1, room).contains(p)
                    <==> member_set(m, room).contains(p) && p.0 != user by {
                lemma_remove_user_contains(m[room], user, p);
            }
            assert(member_set(m1, room) =~= Set::new(|p: MemberView| member_set(m, room).contains(p) && p.0 != user));
        } else {
            assert(member_set(m1, room) =~= Set::new(|p: MemberView| member_set(m, room).contains(p) && p.0 != user));
        }
    } else {
        assert(room_members(m1, r2) == room_members(m, r2));
    }
}

/// Dropping a final operation that neither connects nor disconnects this
/// very (room, user, capability) entry does not change whether a surviving
/// connect of it exists.
proof fn lemma_surviving_connect_extend(ops: Seq<RegistryOp>, room: Seq<char>, user: Seq<char>, capability: Capability)
    requires
        ops.len() > 0,
        ops.last() != (RegistryOp::Disconnect { room, user }),
        ops.last() != (RegistryOp::Connect { room, user, capability }),
    ensures
        (exists|i: int| surviving_connect(ops, room, user, capability, i))
            <==> exists|i: int| surviving_connect(ops.drop_last(), room, user, capability, i),
{
    let init = ops.drop_last();
    assert(forall|j: int| 0 <= j < init.len() ==> init[j] == ops[j]);
    if exists|i: int| surviving_connect(ops, room, user, capability, i) {
        let i = choose|i: int| surviving_connect(ops, room, user, capability, i);
        assert(i < ops.len() - 1);
        assert(surviving_connect(init, room, user, capability, i));
    }
    if exists|i: int| surviving_connect(init, room, user, capability, i) {
        let i = choose|i: int| surviving_connect(init, room, user, capability, i);
        assert(surviving_connect(ops, room, user, capability, i)) by {
            assert forall|j: int| i < j < ops.len()
                implies ops[j] != (RegistryOp::Disconnect { room, user }) by {
                if j < ops.len() - 1 {
                    assert(ops[j] == init[j]);
                }
            }
        }
    }
}

/// For every history of connects and disconnects, a pair is an effective
/// member of a room exactly when some connect of it was not cancelled by a
/// later disconnect of that user from that room: membership is the set of
/// surviving connects, deduplicated, never a counter.
pub proof fn lemma_membership_from_history(ops: Seq<RegistryOp>, room: Seq<char>, user: Seq<char>, capability: Capability)
    ensures
        member_set(apply_ops(Map::empty(), ops), room).contains((user, capability))
            <==> exists|i: int| surviving_connect(ops, room, user, capability, i),
    decreases ops.len(),
{
    let empty = Map::<Seq<char>, Seq<MemberView>>::empty();
    if ops.len() == 0 {
        assert(!member_set(empty, room).contains((user, capability)));
        assert(!(exists|i: int| surviving_connect(ops, room, user, capability, i)));
    } else {
        let init = ops.drop_last();
        let last = ops.last();
        let m0 = apply_ops(empty, init);
        let m1 = apply_ops(empty, ops);
        assert(m1 == apply_op(m0, last));
        lemma_membership_from_history(init, room, user, capability);
        match last {
            RegistryOp::Connect { room: r2, user: u2, capability: c2 } => {
                lemma_connect_member_set(m0, r2, u2, c2, room);
                if r2 == room && u2 == user && c2 == capability {
                    assert(member_set(m1, room).contains((user, capability)));
                    assert(surviving_connect(ops, room, user, capability, ops.len() - 1));
                } else {
                    assert(member_set(m1, room).contains((user, capability))
                        <==> member_set(m0, room).contains((user, capability)));
                    lemma_surviving_connect_extend(ops, room, user, capability);
                }
            },
            RegistryOp::Disconnect { room: r2, user: u2 } => {
                lemma_disconnect_member_set(m0, r2, u2, room);
                if r2 == room && u2 == user {
                    assert(!member_set(m1, room).contains((user, capability)));
                    assert forall|i: int| !surviving_connect(ops, room, user, capability, i) by {
                        if 0 <= i < ops.len() - 1 {
                            assert(ops[ops.len() - 1] == (RegistryOp::Disconnect { room, user }));
                        }
                    }
                } else {
                    assert(member_set(m1, room).contains((user, capability))
                        <==> member_set(m0, room).contains((user, capability)));
                    lemma_surviving_connect_extend(ops, room, user, capability);
                }
            },
        }
    }
}

/// Disconnect is idempotent: disconnecting the same user from the same room
/// twice leaves the registry exactly as disconnecting once does.
pub proof fn lemma_disconnect_idempotent(m: RegistryView, room: Seq<char>, user: Seq<char>)
    ensures
        spec_disconnect(spec_disconnect(m, room, user), room, user) == spec_disconnect(m, room, user),
{
    if m.dom().contains(room) {
        let m1 = spec_disconnect(m, room, user);
        lemma_remove_user_idempotent(m[room], user);
        assert(spec_disconnect(m1, room, user) =~= m1);
    }
}

/// Room isolation: a broadcast to one room only targets capabilities held
/// by that room's own members, so a capability held only by a member of
/// another room is never delivered to.
pub proof fn lemma_broadcast_room_isolation(m: RegistryView, room_a: Seq<char>, room_b: Seq<char>, user: Seq<char>, capability: Capability)
    requires
        room_a != room_b,
        member_set(m, room_b).contains((user, capability)),
        forall|p: MemberView| member_set(m, room_a).contains(p) ==> p.1 != capability,
    ensures
        !broadcast_targets(m, room_a).contains(capability),
{
    if broadcast_targets(m, room_a).contains(capability) {
        let targets = broadcast_targets(m, room_a);
        let t = choose|t: int| 0 <= t < targets.len() && targets[t] == capability;
        let p = room_members(m, room_a)[t];
        assert(room_members(m, room_a).contains(p));
        assert(member_set(m, room_a).contains(p));
        assert(p.1 == capability);
    }
}

/// One member entry held by the hub.
struct Member {
    user_id: String,
    capability: Capability,
}

impl View for Member {
    type V = MemberView;

    closed spec fn view(&self) -> MemberView {
        (self.user_id@, self.capability)
    }
}

/// One room of the membership table.
struct Room {
    room_id: String,
    members: Vec<Member>,
}

spec fn members_view(members: Seq<Member>) -> Seq<MemberView> {
    members.map_values(|m: Member| m@)
}

spec fn has_room(rooms: Seq<Room>, room: Seq<char>) -> bool {
    exists|i: int| 0 <= i < rooms.len() && rooms[i].room_id@ == room
}

spec fn room_index(rooms: Seq<Room>, room: Seq<char>) -> int {
    choose|i: int| 0 <= i < rooms.len() && rooms[i].room_id@ == room
}

/// The hub. All membership mutation and fan-out goes through this one value;
/// the surrounding server drives it from a single sequential task, so every
/// caller observes one total order of operations.
pub struct ChatServer {
    rooms: Vec<Room>,
}

impl View for ChatServer {
    type V = RegistryView;

    closed spec fn view(&self) -> RegistryView {
        Map::new(
            |room: Seq<char>| has_room(self.rooms@, room),
            |room: Seq<char>| members_view(self.rooms@[room_index(self.rooms@, room)].members@),
        )
    }
}

impl ChatServer {
    /// Room identifiers are pairwise distinct and each room's member pairs
    /// are pairwise distinct.
    pub closed spec fn wf(&self) -> bool {
        &&& forall|i: int, j: int|
            0 <= i < j < self.rooms@.len() ==> self.rooms@[i].room_id@ != self.rooms@[j].room_id@
        &&& forall|i: int|
            0 <= i < self.rooms@.len() ==> distinct_members(members_view(#[trigger] self.rooms@[i].members@))
    }

    proof fn lemma_room_index(&self, i: int)
        requires
            self.wf(),
            0 <= i < self.rooms@.len(),
        ensures
            room_index(self.rooms@, self.rooms@[i].room_id@) == i,
            self@.dom().contains(self.rooms@[i].room_id@),
            self@[self.rooms@[i].room_id@] == members_view(self.rooms@[i].members@),
    {
        let room = self.rooms@[i].room_id@;
        assert(has_room(self.rooms@, room));
        let j = room_index(self.rooms@, room);
        assert(0 <= j < self.rooms@.len() && self.rooms@[j].room_id@ == room);
        if i != j {
            assert(false);
        }
    }

    /// An empty registry: no room has ever been touched.
    pub fn new() -> (r: ChatServer)
        ensures
            r.wf(),
            r@ == Map::<Seq<char>, Seq<MemberView>>::empty(),
    {
        let r = ChatServer { rooms: Vec::new() };
        proof {
            assert(r@ =~= Map::<Seq<char>, Seq<MemberView>>::empty());
        }
        r
    }

    /// Registers `(user_id, capability)` in `room_id`, creating the room
    /// implicitly when it is unknown. Inserting a pair that is already
    /// present changes nothing. Never fails.
    pub fn connect(&mut self, room_id: &String, user_id: &String, capability: Capability)
        requires
            old(self).wf(),
        ensures
            final(self).wf(),
            final(self)@ == spec_connect(old(self)@, room_id@, user_id@, capability),
    {
        let n = self.rooms.len();
        let mut i: usize = 0;
        while i < n
            invariant
                *self == *old(self),
                old(self).wf(),
                n == self.rooms@.len(),
                i <= n,
                forall|k: int| 0 <= k < i ==> self.rooms@[k].room_id@ != room_id@,
            decreases n - i,
        {
            if self.rooms[i].room_id == *room_id {
                proof {
                    self.lemma_room_index(i as int);
                }
                let mlen = self.rooms[i].members.len();
                let mut k: usize = 0;
                while k < mlen
                    invariant
                        *self == *old(self),
                        old(self).wf(),
                        i < self.rooms@.len(),
                        self.rooms@[i as int].room_id@ == room_id@,
                        mlen == self.rooms@[i as int].members@.len(),
                        k <= mlen,
                        forall|t: int|
                            0 <= t < k ==> members_view(self.rooms@[i as int].members@)[t] != (user_id@, capability),
                    decreases mlen - k,
                {
                    let m = &self.rooms[i].members[k];
                    if m.user_id == *user_id && m.capability == capability {
                        proof {
                            self.lemma_room_index(i as int);
                            let ms = members_view(self.rooms@[i as int].members@);
                            assert(ms[k as int] == (user_id@, capability));
                            assert(ms.contains((user_id@, capability)));
                            assert(self@ =~= spec_connect(self@, room_id@, user_id@, capability));
                        }
                        return;
                    }
                    k += 1;
                }
                let ghost old_rooms = self.rooms@;
                let ghost old_map = self@;
                let ghost old_ms = members_view(old_rooms[i as int].members@);
                proof {
                    assert(!old_ms.contains((user_id@, capability))) by {
                        if old_ms.contains((user_id@, capability)) {
                            let t = choose|t: int| 0 <= t < old_ms.len() && old_ms[t] == (user_id@, capability);
                        }
                    }
                }
                let member = Member { user_id: user_id.clone(), capability };
                self.rooms[i].members.push(member);
                proof {
                    let rooms = self.rooms@;
                    assert(rooms[i as int].room_id@ == room_id@);
                    assert(rooms[i as int].members@ =~= old_rooms[i as int].members@.push(member));
                    assert(forall|k: int|
                        0 <= k < rooms.len() && k != i ==> rooms[k] == old_rooms[k]);
                    let new_ms = members_view(rooms[i as int].members@);
                    assert(new_ms =~= old_ms.push((user_id@, capability)));
                    assert(self.wf()) by {
                        assert forall|q: int|
                            0 <= q < rooms.len() implies distinct_members(members_view(#[trigger] rooms[q].members@)) by {
                            if q == i {
                                assert forall|a: int, b: int| 0 <= a < b < new_ms.len()
                                    implies new_ms[a] != new_ms[b] by {
                                    if b < new_ms.len() - 1 {
                                        assert(old_ms[a] != old_ms[b]);
                                    } else {
                                        assert(new_ms[b] == (user_id@, capability));
                                    }
                                }
                            } else {
                                assert(members_view(rooms[q].members@) == members_view(old_rooms[q].members@));
                            }
                        }
                    }
                    assert(self@ =~= spec_connect(old_map, room_id@, user_id@, capability)) by {
                        assert forall|r2: Seq<char>| has_room(rooms, r2) <==> has_room(old_rooms, r2) by {
                            assert(forall|k: int| 0 <= k < rooms.len() ==> rooms[k].room_id@ == old_rooms[k].room_id@);
                        }
                        assert(add_member(room_members(old_map, room_id@), user_id@, capability) =~= new_ms);
                        assert forall|r2: Seq<char>| #[trigger] has_room(rooms, r2) implies
                            members_view(rooms[room_index(rooms, r2)].members@)
                                == spec_connect(old_map, room_id@, user_id@, capability)[r2] by {
                            let q = room_index(rooms, r2);
                            assert(0 <= q < rooms.len() && rooms[q].room_id@ == r2);
                            self.lemma_room_index(q);
                            if r2 == room_id@ {
                                assert(q == i) by {
                                    if q != i {
                                        assert(old_rooms[q].room_id@ == old_rooms[i as int].room_id@);
                                    }
                                }
                            } else {
                                assert(rooms[q] == old_rooms[q]);
                                assert(old(self)@[r2] == members_view(old_rooms[q].members@)) by {
                                    old(self).lemma_room_index(q);
                                }
                            }
                        }
                    }
                }
                return;
            }
            i += 1;
        }
        let ghost old_rooms = self.rooms@;
        let ghost old_map = self@;
        proof {
            assert(!has_room(old_rooms, room_id@));
            assert(!old_map.dom().contains(room_id@));
        }
        let mut members: Vec<Member> = Vec::new();
        members.push(Member { user_id: user_id.clone(), capability });
        self.rooms.push(Room { room_id: room_id.clone(), members });
        proof {
            let rooms = self.rooms@;
            assert(rooms =~= old_rooms.push(rooms.last()));
            let new_ms = members_view(rooms.last().members@);
            assert(new_ms =~= seq![(user_id@, capability)]);
            assert(self.wf()) by {
                assert forall|q: int|
                    0 <= q < rooms.len() implies distinct_members(members_view(#[trigger] rooms[q].members@)) by {
                    if q < rooms.len() - 1 {
                        assert(members_view(rooms[q].members@) == members_view(old_rooms[q].members@));
                    }
                }
            }
            assert(self@ =~= spec_connect(old_map, room_id@, user_id@, capability)) by {
                assert(add_member(room_members(old_map, room_id@), user_id@, capability) =~= new_ms);
                assert forall|r2: Seq<char>| #[trigger] has_room(rooms, r2) implies
                    has_room(old_rooms, r2) || r2 == room_id@ by {
                    let q = choose|q: int| 0 <= q < rooms.len() && rooms[q].room_id@ == r2;
                    if q < rooms.len() - 1 {
                        assert(old_rooms[q].room_id@ == r2);
                    }
                }
                assert forall|r2: Seq<char>| #[trigger] has_room(old_rooms, r2) implies
                    has_room(rooms, r2) by {
                    let q = choose|q: int| 0 <= q < old_rooms.len() && old_rooms[q].room_id@ == r2;
                    assert(rooms[q].room_id@ == r2);
                }
                assert(has_room(rooms, room_id@)) by {
                    assert(rooms[rooms.len() - 1].room_id@ == room_id@);
                }
                assert forall|r2: Seq<char>| #[trigger] has_room(rooms, r2) implies
                    members_view(rooms[room_index(rooms, r2)].members@)
                        == spec_connect(old_map, room_id@, user_id@, capability)[r2] by {
                    let q = room_index(rooms, r2);
                    assert(0 <= q < rooms.len() && rooms[q].room_id@ == r2);
                    self.lemma_room_index(q);
                    if r2 == room_id@ {
                        assert(q == rooms.len() - 1) by {
                            if q < rooms.len() - 1 {
                                assert(old_rooms[q].room_id@ == room_id@);
                            }
                        }
                    } else {
                        assert(q < rooms.len() - 1);
                        assert(rooms[q] == old_rooms[q]);
                        assert(old(self)@[r2] == members_view(old_rooms[q].members@)) by {
                            old(self).lemma_room_index(q);
                        }
                    }
                }
            }
        }
    }

    /// Removes every member entry of `user_id` in `room_id`. Removing an
    /// absent member, or from an unknown room, is a no-op, never an error;
    /// the room entry itself stays even when it becomes empty.
    pub fn disconnect(&mut self, room_id: &String, user_id: &String)
        requires
            old(self).wf(),
        ensures
            final(self).wf(),
            final(self)@ == spec_disconnect(old(self)@, room_id@, user_id@),
    {
        let n = self.rooms.len();
        let mut i: usize = 0;
        while i < n
            invariant
                *self == *old(self),
                old(self).wf(),
                n == self.rooms@.len(),
                i <= n,
                forall|k: int| 0 <= k < i ==> self.rooms@[k].room_id@ != room_id@,
            decreases n - i,
        {
            if self.rooms[i].room_id == *room_id {
                proof {
                    self.lemma_room_index(i as int);
                }
                let ghost old_rooms = self.rooms@;
                let ghost old_map = self@;
                let ghost old_ms = members_view(old_rooms[i as int].members@);
                let mlen = self.rooms[i].members.len();
                let mut kept: Vec<Member> = Vec::new();
                proof {
                    assert(members_view(kept@) =~= remove_user(old_ms.take(0), user_id@));
                }
                let mut k: usize = 0;
                while k < mlen
                    invariant
                        *self == *old(self),
                        old(self).wf(),
                        i < self.rooms@.len(),
                        self.rooms@[i as int].room_id@ == room_id@,
                        old_ms == members_view(self.rooms@[i as int].members@),
                        mlen == self.rooms@[i as int].members@.len(),
                        k <= mlen,
                        members_view(kept@) == remove_user(old_ms.take(k as int), user_id@),
                    decreases mlen - k,
                {
                    let ghost kept_before = members_view(kept@);
                    let m = &self.rooms[i].members[k];
                    if m.user_id == *user_id {
                    } else {
                        kept.push(Member { user_id: m.user_id.clone(), capability: m.capability });
                    }
                    proof {
                        assert(old_ms.take(k + 1) =~= old_ms.take(k as int).push(old_ms[k as int]));
                        lemma_remove_user_push(old_ms.take(k as int), old_ms[k as int], user_id@);
                        assert(old_ms[k as int] == self.rooms@[i as int].members@[k as int]@);
                        if old_ms[k as int].0 == user_id@ {
                            assert(members_view(kept@) == kept_before);
                        } else {
                            assert(members_view(kept@) =~= kept_before.push(old_ms[k as int]));
                        }
                    }
                    k += 1;
                }
                proof {
                    assert(old_ms.take(mlen as int) =~= old_ms);
                }
                self.rooms[i].members = kept;
                proof {
                    let rooms = self.rooms@;
                    assert(rooms[i as int].room_id@ == room_id@);
                    let new_ms = members_view(rooms[i as int].members@);
                    assert(new_ms == remove_user(old_ms, user_id@));
                    assert(forall|q: int|
                        0 <= q < rooms.len() && q != i ==> rooms[q] == old_rooms[q]);
                    assert(self.wf()) by {
                        lemma_remove_user_distinct(old_ms, user_id@);
                        assert forall|q: int|
                            0 <= q < rooms.len() implies distinct_members(members_view(#[trigger] rooms[q].members@)) by {
                            if q != i {
                                assert(members_view(rooms[q].members@) == members_view(old_rooms[q].members@));
                            }
                        }
                    }
                    assert(self@ =~= spec_disconnect(old_map, room_id@, user_id@)) by {
                        assert forall|r2: Seq<char>| has_room(rooms, r2) <==> has_room(old_rooms, r2) by {
                            assert(forall|q: int| 0 <= q < rooms.len() ==> rooms[q].room_id@ == old_rooms[q].room_id@);
                        }
                        assert(old_map.dom().contains(room_id@));
                        assert forall|r2: Seq<char>| #[trigger] has_room(rooms, r2) implies
                            members_view(rooms[room_index(rooms, r2)].members@)
                                == spec_disconnect(old_map, room_id@, user_id@)[r2] by {
                            let q = room_index(rooms, r2);
                            assert(0 <= q < rooms.len() && rooms[q].room_id@ == r2);
                            self.lemma_room_index(q);
                            if r2 == room_id@ {
                                assert(q == i) by {
                                    if q != i {
                                        assert(old_rooms[q].room_id@ == old_rooms[i as int].room_id@);
                                    }
                                }
                            } else {
                                assert(rooms[q] == old_rooms[q]);
                                assert(old(self)@[r2] == members_view(old_rooms[q].members@)) by {
                                    old(self).lemma_room_index(q);
                                }
                            }
                        }
                    }
                }
                return;
            }
            i += 1;
        }
        proof {
            assert(!has_room(self.rooms@, room_id@));
            assert(!self@.dom().contains(room_id@));
        }
    }

    /// Collects one delivery per current member of `room_id`, each carrying
    /// its own copy of `message`, in member order. An unknown room yields no
    /// deliveries and no error. The caller pushes each copy down the paired
    /// capability; a stale capability must not keep the others from theirs.
    pub fn broadcast(&self, room_id: &String, message: &Message) -> (deliveries: Vec<(Capability, Message)>)
        requires
            self.wf(),
        ensures
            deliveries@.len() == room_members(self@, room_id@).len(),
            forall|t: int| #![auto]
                0 <= t < deliveries@.len() ==> deliveries@[t].0 == room_members(self@, room_id@)[t].1
                    && deliveries@[t].1@ == message@,
            deliveries@.map_values(|d: (Capability, Message)| d.0) == broadcast_targets(self@, room_id@),
    {
        let n = self.rooms.len();
        let mut i: usize = 0;
        while i < n
            invariant
                self.wf(),
                n == self.rooms@.len(),
                i <= n,
                forall|k: int| 0 <= k < i ==> self.rooms@[k].room_id@ != room_id@,
            decreases n - i,
        {
            if self.rooms[i].room_id == *room_id {
                proof {
                    self.lemma_room_index(i as int);
                }
                let ghost ms = members_view(self.rooms@[i as int].members@);
                let mlen = self.rooms[i].members.len();
                let mut out: Vec<(Capability, Message)> = Vec::new();
                let mut k: usize = 0;
                while k < mlen
                    invariant
                        self.wf(),
                        i < self.rooms@.len(),
                        ms == members_view(self.rooms@[i as int].members@),
                        mlen == self.rooms@[i as int].members@.len(),
                        k <= mlen,
                        out@.len() == k,
                        forall|t: int| #![auto]
                            0 <= t < k ==> out@[t].0 == ms[t].1 && out@[t].1@ == message@,
                    decreases mlen - k,
                {
                    let m = &self.rooms[i].members[k];
                    out.push((m.capability, message.duplicate()));
                    k += 1;
                }
                proof {
                    assert(room_members(self@, room_id@) == ms);
                    assert(forall|t: int| #![auto]
                        0 <= t < out@.len() ==> out@[t].0 == room_members(self@, room_id@)[t].1
                            && out@[t].1@ == message@);
                    assert(out@.map_values(|d: (Capability, Message)| d.0)
                        =~= broadcast_targets(self@, room_id@));
                }
                return out;
            }
            i += 1;
        }
        proof {
            assert(!has_room(self.rooms@, room_id@));
            assert(!self@.dom().contains(room_id@));
            assert(room_members(self@, room_id@) == Seq::<MemberView>::empty());
        }
        let out: Vec<(Capability, Message)> = Vec::new();
        proof {
            assert(out@.map_values(|d: (Capability, Message)| d.0)
                =~= broadcast_targets(self@, room_id@));
        }
        out
    }

    /// Performs one action a session submitted, as the serialized owner of
    /// the table: a connect or disconnect mutates the membership, a
    /// broadcast collects the deliveries for the room, and the actions a
    /// session answers on its own socket are no registry work at all.
    pub fn submit(&mut self, action: SessionAction) -> (deliveries: Vec<(Capability, Message)>)
        requires
            old(self).wf(),
        ensures
            final(self).wf(),
            final(self)@ == spec_submit(old(self)@, action@),
            (match action@ {
                SessionActionView::Broadcast { room_id, message } => {
                    &&& deliveries@.len() == room_members(old(self)@, room_id).len()
                    &&& forall|t: int| #![auto]
                        0 <= t < deliveries@.len()
                            ==> deliveries@[t].0 == room_members(old(self)@, room_id)[t].1
                                && deliveries@[t].1@ == message
                },
                _ => deliveries@.len() == 0,
            }),
    {
        match action {
            SessionAction::Connect { room_id, user_id, capability } => {
                self.connect(&room_id, &user_id, capability);
                Vec::new()
            },
            SessionAction::Disconnect { room_id, user_id } => {
                self.disconnect(&room_id, &user_id);
                Vec::new()
            },
            SessionAction::Broadcast { room_id, message } => self.broadcast(&room_id, &message),
            SessionAction::EchoBinary(_) => Vec::new(),
            SessionAction::TransportPong(_) => Vec::new(),
        }
    }
}

} // verus!
