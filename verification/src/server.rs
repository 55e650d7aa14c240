//! The registry hub: the single owner of all session and room state.  Every
//! mutation and every routing decision goes through one `ChatServer` value,
//! one operation at a time, so no two operations ever observe interleaved
//! partial state.
//!
//! Delivery is decided here and performed outside: a routing operation
//! returns the envelope to send and the connection ids that receive it, and
//! the transport layer enqueues the encoded frame onto each target's
//! outbound channel (drop-on-closed, never blocking the hub).

use vstd::prelude::*;

use crate::model::{ChatMessage, ChatMessageType};

verus! {

/// An outbound frame for one connection, as the hub hands it to a session's
/// channel.
#[derive(Debug, Clone, PartialEq, Eq)]
pub struct Message {
    pub text: String,
}

/// Registers a new connection under an already verified identity.
#[derive(Debug, Clone, PartialEq, Eq)]
pub struct Connect {
    pub name: String,
}

/// Withdraws a connection: its id leaves the session table and every room.
#[derive(Debug, Clone, PartialEq, Eq)]
pub struct Disconnect {
    pub id: usize,
}

/// A room-scoped message from the named sender identity.
#[derive(Debug, Clone, PartialEq, Eq)]
pub struct StrRoomMessage {
    pub id: String,
    pub msg: String,
    pub room: String,
}

/// A point-to-point message from identity `id` to identity `other_id`.
#[derive(Debug, Clone, PartialEq, Eq)]
pub struct P2PMessage {
    pub id: String,
    pub msg: String,
    pub other_id: String,
}

/// A message from identity `id` to every other live identity.
#[derive(Debug, Clone, PartialEq, Eq)]
pub struct BoardcastMessage {
    pub id: String,
    pub msg: String,
}

/// Asks for a snapshot of the current room names.
#[derive(Debug, Clone, PartialEq, Eq)]
pub struct ListRooms;

/// Puts connection `id` into the room called `name`, leaving any room it was
/// in before: a connection is a member of at most one room at a time.
#[derive(Debug, Clone, PartialEq, Eq)]
pub struct Join {
    pub id: usize,
    pub name: String,
}

/// One live connection: its id and the identity behind it.  The outbound
/// channel belonging to the connection is owned by the transport layer,
/// keyed by `id`.
struct Session {
    id: usize,
    name: String,
}

/// A named room and the ids of the connections currently in it.
struct Room {
    name: String,
    members: Vec<usize>,
}

/// The hub state as contracts see it: the session table as a map from
/// connection id to identity, and each room as the set of its member ids.
#[verifier::ext_equal]
pub struct HubView {
    pub sessions: Map<usize, Seq<char>>,
    pub rooms: Map<Seq<char>, Set<usize>>,
}

// ------------------------------------------------------------------
// Abstraction of the concrete vectors.

broadcast use vstd::seq_lib::lemma_seq_contains_after_push;

spec fn has_sid(s: Seq<Session>, id: usize) -> bool {
    exists|i: int| 0 <= i < s.len() && s[i].id == id
}

spec fn sid_idx(s: Seq<Session>, id: usize) -> int {
    choose|i: int| 0 <= i < s.len() && s[i].id == id
}

spec fn unique_ids(s: Seq<Session>) -> bool {
    forall|i: int, j: int|
        0 <= i < s.len() && 0 <= j < s.len() && (#[trigger] s[i].id) == (#[trigger] s[j].id)
            ==> i == j
}

spec fn smap(s: Seq<Session>) -> Map<usize, Seq<char>> {
    Map::new(|id: usize| has_sid(s, id), |id: usize| s[sid_idx(s, id)].name@)
}

spec fn has_rname(r: Seq<Room>, n: Seq<char>) -> bool {
    exists|i: int| 0 <= i < r.len() && r[i].name@ == n
}

spec fn rname_idx(r: Seq<Room>, n: Seq<char>) -> int {
    choose|i: int| 0 <= i < r.len() && r[i].name@ == n
}

spec fn unique_rnames(r: Seq<Room>) -> bool {
    forall|i: int, j: int|
        0 <= i < r.len() && 0 <= j < r.len() && (#[trigger] r[i].name@) == (#[trigger] r[j].name@)
            ==> i == j
}

spec fn member_set(room: Room) -> Set<usize> {
    Set::new(|x: usize| room.members@.contains(x))
}

spec fn rmap(r: Seq<Room>) -> Map<Seq<char>, Set<usize>> {
    Map::new(|n: Seq<char>| has_rname(r, n), |n: Seq<char>| member_set(r[rname_idx(r, n)]))
}

proof fn lemma_sid_lookup(s: Seq<Session>, i: int)
    requires
        unique_ids(s),
        0 <= i < s.len(),
    ensures
        has_sid(s, s[i].id),
        sid_idx(s, s[i].id) == i,
        smap(s)[s[i].id] == s[i].name@,
{
    assert(has_sid(s, s[i].id));
    let j = sid_idx(s, s[i].id);
    assert(0 <= j < s.len() && s[j].id == s[i].id);
}

proof fn lemma_rname_lookup(r: Seq<Room>, i: int)
    requires
        unique_rnames(r),
        0 <= i < r.len(),
    ensures
        has_rname(r, r[i].name@),
        rname_idx(r, r[i].name@) == i,
        rmap(r)[r[i].name@] == member_set(r[i]),
{
    assert(has_rname(r, r[i].name@));
    let j = rname_idx(r, r[i].name@);
    assert(0 <= j < r.len() && r[j].name@ == r[i].name@);
}

// ------------------------------------------------------------------
// State transitions, at the level of the view.

/// Registering connection `id` under `name` adds one session entry and
/// touches no room.
pub open spec fn connect_spec(v: HubView, id: usize, name: Seq<char>) -> HubView {
    HubView { sessions: v.sessions.insert(id, name), rooms: v.rooms }
}

/// Removing `id` from the member set of every room.
pub open spec fn evict_spec(rooms: Map<Seq<char>, Set<usize>>, id: usize) -> Map<
    Seq<char>,
    Set<usize>,
> {
    Map::new(|n: Seq<char>| rooms.dom().contains(n), |n: Seq<char>| rooms[n].remove(id))
}

/// Withdrawing `id` drops its session entry and purges it from every room.
pub open spec fn disconnect_spec(v: HubView, id: usize) -> HubView {
    HubView { sessions: v.sessions.remove(id), rooms: evict_spec(v.rooms, id) }
}

/// Joining puts a live `id` into `room` (created empty on first join) after
/// leaving every other room; for an id with no session entry it is a no-op,
/// which keeps every room member backed by a live session.
pub open spec fn join_spec(v: HubView, id: usize, room: Seq<char>) -> HubView {
    if !v.sessions.dom().contains(id) {
        v
    } else {
        let evicted = evict_spec(v.rooms, id);
        let base = if evicted.dom().contains(room) {
            evicted[room]
        } else {
            Set::<usize>::empty()
        };
        HubView { sessions: v.sessions, rooms: evicted.insert(room, base.insert(id)) }
    }
}

/// Who receives a room message: the members of `room` whose identity is not
/// `skip`.  An absent room has no recipients.
pub open spec fn room_targets(v: HubView, room: Seq<char>, skip: Seq<char>) -> Set<usize> {
    Set::new(
        |id: usize|
            v.rooms.dom().contains(room) && v.rooms[room].contains(id)
                && v.sessions.dom().contains(id) && v.sessions[id] != skip,
    )
}

/// Who receives a broadcast: every live connection whose identity is not
/// `skip`.
pub open spec fn broadcast_targets(v: HubView, skip: Seq<char>) -> Set<usize> {
    Set::new(|id: usize| v.sessions.dom().contains(id) && v.sessions[id] != skip)
}

/// Who receives a point-to-point message: every live connection whose
/// identity equals `other` (all of a user's devices; none if no session).
pub open spec fn p2p_targets(v: HubView, other: Seq<char>) -> Set<usize> {
    Set::new(|id: usize| v.sessions.dom().contains(id) && v.sessions[id] == other)
}

// ------------------------------------------------------------------
// Laws about the transitions.

/// Withdrawing an id a second time changes nothing: `Disconnect` is
/// idempotent.
pub proof fn lemma_disconnect_idempotent(v: HubView, id: usize)
    ensures
        disconnect_spec(disconnect_spec(v, id), id) == disconnect_spec(v, id),
{
    let once = disconnect_spec(v, id);
    let twice = disconnect_spec(once, id);
    assert(twice.sessions =~= once.sessions);
    assert(twice.rooms =~~= once.rooms);
    assert(twice =~~= once);
}

/// A room message to a room that does not exist reaches nobody.
pub proof fn lemma_room_targets_absent(v: HubView, room: Seq<char>, skip: Seq<char>)
    requires
        !v.rooms.dom().contains(room),
    ensures
        room_targets(v, room, skip) == Set::<usize>::empty(),
{
    assert(room_targets(v, room, skip) =~= Set::<usize>::empty());
}

// ------------------------------------------------------------------
// The hub itself.

/// The single serialized owner of session and room state.  Connection ids
/// come from a monotone counter, so an id is never reused while — or after —
/// any table still references it.
pub struct ChatServer {
    sessions: Vec<Session>,
    rooms: Vec<Room>,
    next_id: usize,
}

impl View for ChatServer {
    type V = HubView;

    closed spec fn view(&self) -> HubView {
        HubView { sessions: smap(self.sessions@), rooms: rmap(self.rooms@) }
    }
}

impl ChatServer {
    /// Internal well-formedness: session ids are pairwise distinct and below
    /// the allocation counter, room names are pairwise distinct, and each
    /// room holds a duplicate-free set of ids of live sessions.
    pub closed spec fn wf(&self) -> bool {
        &&& unique_ids(self.sessions@)
        &&& forall|i: int|
            0 <= i < self.sessions@.len() ==> (#[trigger] self.sessions@[i].id) < self.next_id
        &&& unique_rnames(self.rooms@)
        &&& forall|i: int|
            0 <= i < self.rooms@.len() ==> (#[trigger] self.rooms@[i].members@).no_duplicates()
        &&& forall|i: int, j: int|
            0 <= i < self.rooms@.len() && 0 <= j < self.rooms@[i].members@.len() ==> has_sid(
                self.sessions@,
                #[trigger] self.rooms@[i].members@[j],
            )
    }

    /// How many connection ids the allocator can still hand out.
    pub closed spec fn ids_left(&self) -> int {
        usize::MAX - self.next_id
    }

    /// Every member of every room is a live session: the membership
    /// invariant the hub maintains across all operations.
    pub proof fn lemma_members_live(&self)
        requires
            self.wf(),
        ensures
            forall|n: Seq<char>, id: usize|
                self@.rooms.dom().contains(n) && #[trigger] self@.rooms[n].contains(id)
                    ==> self@.sessions.dom().contains(id),
    {
        assert forall|n: Seq<char>, id: usize|
            self@.rooms.dom().contains(n) && #[trigger] self@.rooms[n].contains(id) implies self@.sessions.dom().contains(
            id,
        ) by {
            let i = rname_idx(self.rooms@, n);
            assert(0 <= i < self.rooms@.len() && self.rooms@[i].name@ == n);
            assert(self.rooms@[i].members@.contains(id));
            let j = choose|j: int|
                0 <= j < self.rooms@[i].members@.len() && self.rooms@[i].members@[j] == id;
            assert(has_sid(self.sessions@, self.rooms@[i].members@[j]));
        }
    }

    /// Finds the position of the session entry for `id`, if one exists.
    fn find_session_index(&self, id: usize) -> (r: Option<usize>)
        ensures
            match r {
                Some(i) => 0 <= i < self.sessions@.len() && self.sessions@[i as int].id == id,
                None => !has_sid(self.sessions@, id),
            },
    {
        let mut i: usize = 0;
        while i < self.sessions.len()
            invariant
                0 <= i <= self.sessions@.len(),
                forall|k: int| 0 <= k < i ==> (#[trigger] self.sessions@[k].id) != id,
            decreases self.sessions@.len() - i,
        {
            if self.sessions[i].id == id {
                return Some(i);
            }
            i = i + 1;
        }
        None
    }

    /// Whether the id allocator can still serve a `Connect`.  Exhaustion of
    /// the id space is treated as fatal by the caller.
    pub fn can_connect(&self) -> (b: bool)
        ensures
            b == (self.ids_left() > 0),
    {
        self.next_id < usize::MAX
    }

    /// Processes `Connect`: allocates a fresh connection id — distinct from
    /// every currently live id — and records the session under it.
    pub fn connect(&mut self, msg: Connect) -> (id: usize)
        requires
            old(self).wf(),
            old(self).ids_left() > 0,
        ensures
            final(self).wf(),
            final(self).ids_left() == old(self).ids_left() - 1,
            !old(self)@.sessions.dom().contains(id),
            final(self)@ == connect_spec(old(self)@, id, msg.name@),
    {
        let id = self.next_id;
        proof {
            assert(!has_sid(self.sessions@, id)) by {
                if has_sid(self.sessions@, id) {
                    let i = sid_idx(self.sessions@, id);
                    assert(0 <= i < self.sessions@.len() && self.sessions@[i].id == id);
                }
            }
        }
        self.next_id = self.next_id + 1;
        let ghost s_old = self.sessions@;
        self.sessions.push(Session { id, name: msg.name });
        proof {
            lemma_smap_push(s_old, self.sessions@.last());
            assert(smap(self.sessions@) =~= smap(s_old).insert(id, msg.name@));
            assert(self@ =~~= connect_spec(old(self)@, id, msg.name@));
            assert forall|i: int|
                0 <= i < self.sessions@.len() implies (#[trigger] self.sessions@[i].id)
                < self.next_id by {
                if i < s_old.len() {
                    assert(self.sessions@[i] == s_old[i]);
                }
            }
            assert forall|i: int, j: int|
                0 <= i < self.rooms@.len() && 0 <= j < self.rooms@[i].members@.len()
                    implies has_sid(self.sessions@, #[trigger] self.rooms@[i].members@[j]) by {
                assert(has_sid(s_old, self.rooms@[i].members@[j]));
            }
            assert(self.wf());
        }
        id
    }

    /// Processes `Disconnect`: removes the session entry for `id` if one
    /// exists and purges `id` from every room's member set.  For an id with
    /// no session entry this is a no-op.
    pub fn disconnect(&mut self, msg: Disconnect)
        requires
            old(self).wf(),
        ensures
            final(self).wf(),
            final(self).ids_left() == old(self).ids_left(),
            final(self)@ == disconnect_spec(old(self)@, msg.id),
    {
        match self.find_session_index(msg.id) {
            None => {
                proof {
                    self.lemma_members_live();
                    assert(smap(self.sessions@) =~= smap(self.sessions@).remove(msg.id));
                    assert forall|n: Seq<char>| #[trigger] has_rname(self.rooms@, n) implies rmap(
                        self.rooms@,
                    )[n].remove(msg.id) =~= rmap(self.rooms@)[n] by {
                        assert(!rmap(self.rooms@)[n].contains(msg.id));
                    }
                    assert(rmap(self.rooms@) =~~= evict_spec(rmap(self.rooms@), msg.id));
                    assert(self@ =~~= disconnect_spec(old(self)@, msg.id));
                }
            },
            Some(i) => {
                let ghost s_old = self.sessions@;
                let ghost r_old = self.rooms@;
                self.sessions.remove(i);
                proof {
                    lemma_smap_remove_at(s_old, i as int);
                }
                let mut new_rooms: Vec<Room> = Vec::new();
                let mut k: usize = 0;
                while k < self.rooms.len()
                    invariant
                        old(self).wf(),
                        self.rooms@ == r_old,
                        r_old == old(self).rooms@,
                        s_old == old(self).sessions@,
                        unique_ids(s_old),
                        0 <= i < s_old.len(),
                        s_old[i as int].id == msg.id,
                        self.sessions@ == s_old.remove(i as int),
                        k <= r_old.len(),
                        new_rooms@.len() == k,
                        forall|t: int|
                            0 <= t < k ==> (#[trigger] new_rooms@[t].name@) == r_old[t].name@,
                        forall|t: int|
                            0 <= t < k ==> (#[trigger] new_rooms@[t].members@).no_duplicates(),
                        forall|t: int, x: usize|
                            0 <= t < k ==> ((#[trigger] new_rooms@[t].members@.contains(x))
                                <==> r_old[t].members@.contains(x) && x != msg.id),
                        forall|t: int, j: int|
                            0 <= t < k && 0 <= j < new_rooms@[t].members@.len() ==> has_sid(
                                self.sessions@,
                                #[trigger] new_rooms@[t].members@[j],
                            ),
                    decreases r_old.len() - k,
                {
                    let room = &self.rooms[k];
                    let mut ms: Vec<usize> = Vec::new();
                    let mut j: usize = 0;
                    while j < room.members.len()
                        invariant
                            old(self).wf(),
                            self.rooms@ == r_old,
                            r_old == old(self).rooms@,
                            s_old == old(self).sessions@,
                            unique_ids(s_old),
                            0 <= i < s_old.len(),
                            s_old[i as int].id == msg.id,
                            self.sessions@ == s_old.remove(i as int),
                            0 <= k < r_old.len(),
                            room == r_old[k as int],
                            room.members@.no_duplicates(),
                            j <= room.members@.len(),
                            ms@.no_duplicates(),
                            forall|x: usize|
                                (#[trigger] ms@.contains(x)) <==> ((exists|t: int|
                                    0 <= t < j && room.members@[t] == x) && x != msg.id),
                        decreases room.members@.len() - j,
                    {
                        let m = room.members[j];
                        if m != msg.id {
                            proof {
                                assert(!ms@.contains(m));
                            }
                            ms.push(m);
                        }
                        j = j + 1;
                    }
                    proof {
                        assert forall|x: usize| #[trigger]
                            ms@.contains(x) implies r_old[k as int].members@.contains(x) && x
                            != msg.id by {}
                        assert forall|x: usize|
                            r_old[k as int].members@.contains(x) && x != msg.id implies #[trigger]
                            ms@.contains(x) by {}
                        assert forall|t: int|
                            0 <= t < ms@.len() implies has_sid(
                            self.sessions@,
                            #[trigger] ms@[t],
                        ) by {
                            assert(ms@.contains(ms@[t]));
                            assert(r_old[k as int].members@.contains(ms@[t]));
                            let u = choose|u: int|
                                0 <= u < r_old[k as int].members@.len() && r_old[k as int].members@[u]
                                    == ms@[t];
                            assert(has_sid(s_old, r_old[k as int].members@[u]));
                            assert(ms@[t] != msg.id);
                            lemma_smap_remove_at(s_old, i as int);
                            assert(has_sid(s_old.remove(i as int), ms@[t]));
                        }
                    }
                    let name = room.name.clone();
                    new_rooms.push(Room { name, members: ms });
                    k = k + 1;
                }
                self.rooms = new_rooms;
                proof {
                    lemma_rmap_names(r_old, self.rooms@);
                    assert forall|n: Seq<char>| #[trigger] has_rname(r_old, n) implies rmap(
                        self.rooms@,
                    )[n] == rmap(r_old)[n].remove(msg.id) by {
                        let t = rname_idx(r_old, n);
                        lemma_rname_lookup(r_old, t);
                        lemma_rname_lookup(self.rooms@, t);
                        assert(self.rooms@[t].name@ == n);
                        assert(member_set(self.rooms@[t]) =~= member_set(r_old[t]).remove(msg.id));
                    }
                    assert(rmap(self.rooms@) =~~= evict_spec(rmap(r_old), msg.id));
                    assert(self@ =~~= disconnect_spec(old(self)@, msg.id));
                    assert forall|t: int|
                        0 <= t < self.sessions@.len() implies (#[trigger] self.sessions@[t].id)
                        < self.next_id by {
                        s_old.remove_ensures(i as int);
                    }
                    assert forall|t: int, j: int|
                        0 <= t < self.rooms@.len() && 0 <= j < self.rooms@[t].members@.len()
                            implies has_sid(
                        self.sessions@,
                        #[trigger] self.rooms@[t].members@[j],
                    ) by {}
                    assert(self.wf());
                }
            },
        }
    }

    /// Processes `Join`: puts a live `id` into the room called `name`,
    /// creating the room on first use, after removing `id` from every other
    /// room — a connection sits in at most one room at a time.  A request
    /// for an id with no session entry is ignored, which keeps every room
    /// member backed by a live session.
    pub fn join(&mut self, msg: Join)
        requires
            old(self).wf(),
        ensures
            final(self).wf(),
            final(self).ids_left() == old(self).ids_left(),
            final(self)@ == join_spec(old(self)@, msg.id, msg.name@),
    {
        match self.find_session_index(msg.id) {
            None => {
                proof {
                    assert(!smap(self.sessions@).dom().contains(msg.id));
                    assert(self@ =~~= join_spec(old(self)@, msg.id, msg.name@));
                }
                return ;
            },
            Some(fi) => {
                proof {
                    lemma_sid_lookup(self.sessions@, fi as int);
                }
            },
        }
        let ghost r_old = self.rooms@;
        let mut new_rooms: Vec<Room> = Vec::new();
        let mut found_room = false;
        let mut k: usize = 0;
        while k < self.rooms.len()
            invariant
                old(self).wf(),
                self.rooms@ == r_old,
                r_old == old(self).rooms@,
                self.sessions@ == old(self).sessions@,
                has_sid(self.sessions@, msg.id),
                k <= r_old.len(),
                new_rooms@.len() == k,
                forall|t: int| 0 <= t < k ==> (#[trigger] new_rooms@[t].name@) == r_old[t].name@,
                forall|t: int| 0 <= t < k ==> (#[trigger] new_rooms@[t].members@).no_duplicates(),
                found_room <==> (exists|t: int|
                    0 <= t < k && (#[trigger] r_old[t].name@) == msg.name@),
                forall|t: int, x: usize|
                    0 <= t < k && r_old[t].name@ != msg.name@ ==> ((#[trigger] new_rooms@[t].members@.contains(
                        x,
                    )) <==> r_old[t].members@.contains(x) && x != msg.id),
                forall|t: int, x: usize|
                    0 <= t < k && r_old[t].name@ == msg.name@ ==> ((#[trigger] new_rooms@[t].members@.contains(
                        x,
                    )) <==> (r_old[t].members@.contains(x) && x != msg.id) || x == msg.id),
                forall|t: int, j: int|
                    0 <= t < k && 0 <= j < new_rooms@[t].members@.len() ==> has_sid(
                        self.sessions@,
                        #[trigger] new_rooms@[t].members@[j],
                    ),
            decreases r_old.len() - k,
        {
            let room = &self.rooms[k];
            let mut ms: Vec<usize> = Vec::new();
            let mut j: usize = 0;
            while j < room.members.len()
                invariant
                    old(self).wf(),
                    self.rooms@ == r_old,
                    r_old == old(self).rooms@,
                    0 <= k < r_old.len(),
                    room == r_old[k as int],
                    room.members@.no_duplicates(),
                    j <= room.members@.len(),
                    ms@.no_duplicates(),
                    forall|x: usize|
                        (#[trigger] ms@.contains(x)) <==> ((exists|t: int|
                            0 <= t < j && room.members@[t] == x) && x != msg.id),
                decreases room.members@.len() - j,
            {
                let m = room.members[j];
                if m != msg.id {
                    proof {
                        assert(!ms@.contains(m));
                    }
                    ms.push(m);
                }
                j = j + 1;
            }
            let is_target = room.name == msg.name;
            if is_target {
                proof {
                    assert(!ms@.contains(msg.id));
                }
                ms.push(msg.id);
                found_room = true;
            }
            proof {
                assert forall|t: int| 0 <= t < ms@.len() implies has_sid(
                    self.sessions@,
                    #[trigger] ms@[t],
                ) by {
                    assert(ms@.contains(ms@[t]));
                    if ms@[t] != msg.id {
                        assert(r_old[k as int].members@.contains(ms@[t]));
                        let u = choose|u: int|
                            0 <= u < r_old[k as int].members@.len() && r_old[k as int].members@[u]
                                == ms@[t];
                        assert(has_sid(old(self).sessions@, r_old[k as int].members@[u]));
                    }
                }
            }
            let name = room.name.clone();
            new_rooms.push(Room { name, members: ms });
            k = k + 1;
        }
        let ghost v_old = old(self)@;
        let ghost evicted = evict_spec(v_old.rooms, msg.id);
        if !found_room {
            let mut ms: Vec<usize> = Vec::new();
            ms.push(msg.id);
            new_rooms.push(Room { name: msg.name, members: ms });
            self.rooms = new_rooms;
            proof {
                let r_new = self.rooms@;
                let last = r_old.len() as int;
                assert(r_new[last].name@ == msg.name@);
                assert(!has_rname(r_old, msg.name@));
                assert forall|a: int, b: int|
                    0 <= a < r_new.len() && 0 <= b < r_new.len() && (#[trigger] r_new[a].name@)
                        == (#[trigger] r_new[b].name@) implies a == b by {
                    if a < last && b < last {
                        assert(r_old[a].name@ == r_new[a].name@ && r_old[b].name@
                            == r_new[b].name@);
                    } else if a < last && b == last {
                        assert(has_rname(r_old, r_new[a].name@));
                    } else if a == last && b < last {
                        assert(has_rname(r_old, r_new[b].name@));
                    }
                }
                assert forall|n: Seq<char>| #[trigger] has_rname(r_new, n) implies has_rname(
                    r_old,
                    n,
                ) || n == msg.name@ by {
                    let t = rname_idx(r_new, n);
                    assert(0 <= t < r_new.len() && r_new[t].name@ == n);
                    if t < last {
                        assert(r_old[t].name@ == n);
                    }
                }
                assert forall|n: Seq<char>| has_rname(r_old, n) implies #[trigger] has_rname(
                    r_new,
                    n,
                ) by {
                    let t = rname_idx(r_old, n);
                    assert(0 <= t < r_old.len() && r_old[t].name@ == n);
                    assert(r_new[t].name@ == n);
                }
                assert(has_rname(r_new, msg.name@));
                assert forall|n: Seq<char>| #[trigger] has_rname(r_new, n) implies rmap(r_new)[n]
                    == evicted.insert(msg.name@, Set::<usize>::empty().insert(msg.id))[n] by {
                    let t = rname_idx(r_new, n);
                    assert(0 <= t < r_new.len() && r_new[t].name@ == n);
                    lemma_rname_lookup(r_new, t);
                    if n == msg.name@ {
                        assert(t == last);
                        assert(member_set(r_new[t]) =~= Set::<usize>::empty().insert(msg.id));
                    } else {
                        assert(t < last);
                        assert(r_old[t].name@ == n);
                        lemma_rname_lookup(r_old, t);
                        assert(member_set(r_new[t]) =~= member_set(r_old[t]).remove(msg.id));
                    }
                }
                assert(rmap(r_new) =~~= evicted.insert(
                    msg.name@,
                    Set::<usize>::empty().insert(msg.id),
                ));
                assert(!evicted.dom().contains(msg.name@));
                assert(self@ =~~= join_spec(v_old, msg.id, msg.name@));
                assert forall|t: int, j: int|
                    0 <= t < r_new.len() && 0 <= j < r_new[t].members@.len() implies has_sid(
                    self.sessions@,
                    #[trigger] r_new[t].members@[j],
                ) by {
                    if t == last {
                        assert(r_new[t].members@[j] == msg.id);
                    }
                }
                assert(self.wf());
            }
        } else {
            self.rooms = new_rooms;
            proof {
                let r_new = self.rooms@;
                lemma_rmap_names(r_old, r_new);
                let ri = choose|t: int| 0 <= t < r_old.len() && r_old[t].name@ == msg.name@;
                assert(has_rname(r_old, msg.name@));
                assert forall|n: Seq<char>| #[trigger] has_rname(r_new, n) implies rmap(r_new)[n]
                    == evicted.insert(msg.name@, evicted[msg.name@].insert(msg.id))[n] by {
                    let t = rname_idx(r_old, n);
                    lemma_rname_lookup(r_old, t);
                    lemma_rname_lookup(r_new, t);
                    assert(r_new[t].name@ == n);
                    if n == msg.name@ {
                        assert(member_set(r_new[t]) =~= member_set(r_old[t]).remove(
                            msg.id,
                        ).insert(msg.id));
                    } else {
                        assert(member_set(r_new[t]) =~= member_set(r_old[t]).remove(msg.id));
                    }
                }
                assert(rmap(r_new) =~~= evicted.insert(
                    msg.name@,
                    evicted[msg.name@].insert(msg.id),
                ));
                assert(evicted.dom().contains(msg.name@));
                assert(self@ =~~= join_spec(v_old, msg.id, msg.name@));
                assert forall|t: int, j: int|
                    0 <= t < r_new.len() && 0 <= j < r_new[t].members@.len() implies has_sid(
                    self.sessions@,
                    #[trigger] r_new[t].members@[j],
                ) by {
                    assert(r_new[t].members@.contains(r_new[t].members@[j]));
                }
                assert(self.wf());
            }
        }
    }

    /// Finds the position of the room called `name`, if one exists.
    fn find_room_index(&self, name: &String) -> (r: Option<usize>)
        ensures
            match r {
                Some(i) => 0 <= i < self.rooms@.len() && self.rooms@[i as int].name@ == name@,
                None => !has_rname(self.rooms@, name@),
            },
    {
        let mut i: usize = 0;
        while i < self.rooms.len()
            invariant
                0 <= i <= self.rooms@.len(),
                forall|k: int| 0 <= k < i ==> (#[trigger] self.rooms@[k].name@) != name@,
            decreases self.rooms@.len() - i,
        {
            if self.rooms[i].name == *name {
                return Some(i);
            }
            i = i + 1;
        }
        None
    }

    /// The connection ids that a message to `room` from the identity
    /// `skip_name` reaches: every member of the room whose identity differs
    /// from the sender's.  A room that does not exist yields no recipients
    /// and no error.
    pub fn send_message(&self, room: &String, skip_name: &String) -> (r: Vec<usize>)
        requires
            self.wf(),
        ensures
            r@.no_duplicates(),
            forall|id: usize| #[trigger]
                r@.contains(id) <==> room_targets(self@, room@, skip_name@).contains(id),
    {
        match self.find_room_index(room) {
            None => {
                let r: Vec<usize> = Vec::new();
                proof {
                    assert forall|id: usize| !(#[trigger] room_targets(
                        self@,
                        room@,
                        skip_name@,
                    ).contains(id)) by {
                        assert(!self@.rooms.dom().contains(room@));
                    }
                }
                r
            },
            Some(ri) => {
                let room_ref = &self.rooms[ri];
                let mut out: Vec<usize> = Vec::new();
                let mut j: usize = 0;
                while j < room_ref.members.len()
                    invariant
                        self.wf(),
                        0 <= ri < self.rooms@.len(),
                        room_ref == self.rooms@[ri as int],
                        room_ref.name@ == room@,
                        j <= room_ref.members@.len(),
                        out@.no_duplicates(),
                        forall|id: usize| #[trigger]
                            out@.contains(id) <==> ((exists|t: int|
                                0 <= t < j && (#[trigger] room_ref.members@[t]) == id) && has_sid(
                                self.sessions@,
                                id,
                            ) && smap(self.sessions@)[id] != skip_name@),
                    decreases room_ref.members@.len() - j,
                {
                    let m = room_ref.members[j];
                    match self.find_session_index(m) {
                        Some(si) => {
                            proof {
                                lemma_sid_lookup(self.sessions@, si as int);
                            }
                            if !(self.sessions[si].name == *skip_name) {
                                proof {
                                    assert(!out@.contains(m)) by {
                                        assert(room_ref.members@.no_duplicates());
                                    }
                                }
                                out.push(m);
                            }
                        },
                        None => {
                            proof {
                                assert(has_sid(
                                    self.sessions@,
                                    self.rooms@[ri as int].members@[j as int],
                                ));
                                assert(false);
                            }
                        },
                    }
                    j = j + 1;
                }
                proof {
                    lemma_rname_lookup(self.rooms@, ri as int);
                    assert forall|id: usize| #[trigger]
                        out@.contains(id) <==> room_targets(self@, room@, skip_name@).contains(
                        id,
                    ) by {
                        if out@.contains(id) {
                            assert(self@.rooms[room@].contains(id));
                            assert(self@.sessions.dom().contains(id));
                        }
                        if room_targets(self@, room@, skip_name@).contains(id) {
                            assert(self@.rooms[room@] == member_set(self.rooms@[ri as int]));
                            assert(room_ref.members@.contains(id));
                        }
                    }
                }
                out
            },
        }
    }

    /// The connection ids that a broadcast from the identity `skip_name`
    /// reaches: every live connection whose identity differs from the
    /// sender's.
    pub fn send_boardcast(&self, skip_name: &String) -> (r: Vec<usize>)
        requires
            self.wf(),
        ensures
            r@.no_duplicates(),
            forall|id: usize| #[trigger]
                r@.contains(id) <==> broadcast_targets(self@, skip_name@).contains(id),
    {
        let mut out: Vec<usize> = Vec::new();
        let mut i: usize = 0;
        while i < self.sessions.len()
            invariant
                self.wf(),
                i <= self.sessions@.len(),
                out@.no_duplicates(),
                forall|id: usize| #[trigger]
                    out@.contains(id) <==> (exists|t: int|
                        0 <= t < i && (#[trigger] self.sessions@[t].id) == id
                            && self.sessions@[t].name@ != skip_name@),
            decreases self.sessions@.len() - i,
        {
            if !(self.sessions[i].name == *skip_name) {
                let id = self.sessions[i].id;
                proof {
                    assert(!out@.contains(id));
                }
                out.push(id);
            }
            i = i + 1;
        }
        proof {
            assert forall|id: usize| #[trigger]
                out@.contains(id) <==> broadcast_targets(self@, skip_name@).contains(id) by {
                if out@.contains(id) {
                    let t = choose|t: int|
                        0 <= t < self.sessions@.len() && self.sessions@[t].id == id
                            && self.sessions@[t].name@ != skip_name@;
                    lemma_sid_lookup(self.sessions@, t);
                }
                if broadcast_targets(self@, skip_name@).contains(id) {
                    let t = sid_idx(self.sessions@, id);
                    assert(0 <= t < self.sessions@.len() && self.sessions@[t].id == id);
                    lemma_sid_lookup(self.sessions@, t);
                }
            }
        }
        out
    }

    /// The connection ids that a point-to-point message to the identity
    /// `other` reaches: every live session of that identity — all of a
    /// user's devices, and none if the identity has no session.
    pub fn send_p2p_message(&self, other: &String) -> (r: Vec<usize>)
        requires
            self.wf(),
        ensures
            r@.no_duplicates(),
            forall|id: usize| #[trigger]
                r@.contains(id) <==> p2p_targets(self@, other@).contains(id),
    {
        let mut out: Vec<usize> = Vec::new();
        let mut i: usize = 0;
        while i < self.sessions.len()
            invariant
                self.wf(),
                i <= self.sessions@.len(),
                out@.no_duplicates(),
                forall|id: usize| #[trigger]
                    out@.contains(id) <==> (exists|t: int|
                        0 <= t < i && (#[trigger] self.sessions@[t].id) == id
                            && self.sessions@[t].name@ == other@),
            decreases self.sessions@.len() - i,
        {
            if self.sessions[i].name == *other {
                let id = self.sessions[i].id;
                proof {
                    assert(!out@.contains(id));
                }
                out.push(id);
            }
            i = i + 1;
        }
        proof {
            assert forall|id: usize| #[trigger]
                out@.contains(id) <==> p2p_targets(self@, other@).contains(id) by {
                if out@.contains(id) {
                    let t = choose|t: int|
                        0 <= t < self.sessions@.len() && self.sessions@[t].id == id
                            && self.sessions@[t].name@ == other@;
                    lemma_sid_lookup(self.sessions@, t);
                }
                if p2p_targets(self@, other@).contains(id) {
                    let t = sid_idx(self.sessions@, id);
                    assert(0 <= t < self.sessions@.len() && self.sessions@[t].id == id);
                    lemma_sid_lookup(self.sessions@, t);
                }
            }
        }
        out
    }

    /// Processes a room message: stamps the sender into the outbound
    /// envelope and resolves the recipients by room membership, excluding
    /// every session of the sender's own identity.
    pub fn handle_room_message(&self, msg: StrRoomMessage) -> (r: (ChatMessage, Vec<usize>))
        requires
            self.wf(),
        ensures
            r.0 == (ChatMessage {
                from: Some(msg.id),
                style: ChatMessageType::RoomMessage(msg.room),
                content: Some(msg.msg),
                message_id: None,
            }),
            r.1@.no_duplicates(),
            forall|id: usize| #[trigger]
                r.1@.contains(id) <==> room_targets(self@, msg.room@, msg.id@).contains(id),
    {
        let targets = self.send_message(&msg.room, &msg.id);
        let env = ChatMessage {
            from: Some(msg.id),
            style: ChatMessageType::RoomMessage(msg.room),
            content: Some(msg.msg),
            message_id: None,
        };
        (env, targets)
    }

    /// Processes a point-to-point message: stamps the sender into the
    /// outbound envelope and resolves every live session of the target
    /// identity.
    pub fn handle_p2p_message(&self, msg: P2PMessage) -> (r: (ChatMessage, Vec<usize>))
        requires
            self.wf(),
        ensures
            r.0 == (ChatMessage {
                from: Some(msg.id),
                style: ChatMessageType::OneToOne(msg.other_id),
                content: Some(msg.msg),
                message_id: None,
            }),
            r.1@.no_duplicates(),
            forall|id: usize| #[trigger]
                r.1@.contains(id) <==> p2p_targets(self@, msg.other_id@).contains(id),
    {
        let targets = self.send_p2p_message(&msg.other_id);
        let env = ChatMessage {
            from: Some(msg.id),
            style: ChatMessageType::OneToOne(msg.other_id),
            content: Some(msg.msg),
            message_id: None,
        };
        (env, targets)
    }

    /// Processes a broadcast: stamps the sender into the outbound envelope
    /// and resolves every live connection of a different identity.
    pub fn handle_boardcast_message(&self, msg: BoardcastMessage) -> (r: (ChatMessage, Vec<usize>))
        requires
            self.wf(),
        ensures
            r.0 == (ChatMessage {
                from: Some(msg.id),
                style: ChatMessageType::Broadcast,
                content: Some(msg.msg),
                message_id: None,
            }),
            r.1@.no_duplicates(),
            forall|id: usize| #[trigger]
                r.1@.contains(id) <==> broadcast_targets(self@, msg.id@).contains(id),
    {
        let targets = self.send_boardcast(&msg.id);
        let env = ChatMessage {
            from: Some(msg.id),
            style: ChatMessageType::Broadcast,
            content: Some(msg.msg),
            message_id: None,
        };
        (env, targets)
    }

    /// Processes `ListRooms`: a snapshot of the current room names, each
    /// exactly once.
    pub fn list_rooms(&self, msg: ListRooms) -> (r: Vec<String>)
        requires
            self.wf(),
        ensures
            forall|t: int, u: int| 0 <= t < u < r@.len() ==> (#[trigger] r@[t]@) != (#[trigger] r@[u]@),
            forall|n: Seq<char>| #[trigger]
                self@.rooms.dom().contains(n) <==> (exists|t: int|
                    0 <= t < r@.len() && (#[trigger] r@[t]@) == n),
    {
        let ListRooms = msg;
        let mut out: Vec<String> = Vec::new();
        let mut i: usize = 0;
        while i < self.rooms.len()
            invariant
                self.wf(),
                i <= self.rooms@.len(),
                out@.len() == i,
                forall|t: int| 0 <= t < i ==> (#[trigger] out@[t]@) == self.rooms@[t].name@,
            decreases self.rooms@.len() - i,
        {
            let name = self.rooms[i].name.clone();
            out.push(name);
            i = i + 1;
        }
        proof {
            assert forall|n: Seq<char>| #[trigger]
                self@.rooms.dom().contains(n) <==> (exists|t: int|
                    0 <= t < out@.len() && (#[trigger] out@[t]@) == n) by {
                if has_rname(self.rooms@, n) {
                    let t = rname_idx(self.rooms@, n);
                    assert(0 <= t < self.rooms@.len() && self.rooms@[t].name@ == n);
                    assert(out@[t]@ == n);
                }
                if exists|t: int| 0 <= t < out@.len() && (#[trigger] out@[t]@) == n {
                    let t = choose|t: int| 0 <= t < out@.len() && (#[trigger] out@[t]@) == n;
                    assert(self.rooms@[t].name@ == n);
                    assert(has_rname(self.rooms@, n));
                }
            }
        }
        out
    }
}

impl Default for ChatServer {
    /// The empty hub: no sessions, no rooms, the full id space ahead of it.
    fn default() -> (r: ChatServer)
        ensures
            r.wf(),
            r.ids_left() == usize::MAX as int,
            r@.sessions == Map::<usize, Seq<char>>::empty(),
            r@.rooms == Map::<Seq<char>, Set<usize>>::empty(),
    {
        let r = ChatServer { sessions: Vec::new(), rooms: Vec::new(), next_id: 0 };
        proof {
            assert(r@.sessions =~= Map::<usize, Seq<char>>::empty());
            assert(r@.rooms =~= Map::<Seq<char>, Set<usize>>::empty());
        }
        r
    }
}

proof fn lemma_smap_remove_at(s: Seq<Session>, i: int)
    requires
        unique_ids(s),
        0 <= i < s.len(),
    ensures
        unique_ids(s.remove(i)),
        forall|x: usize| #[trigger]
            has_sid(s.remove(i), x) <==> has_sid(s, x) && x != s[i].id,
        smap(s.remove(i)) =~= smap(s).remove(s[i].id),
{
    let s2 = s.remove(i);
    s.remove_ensures(i);
    assert forall|a: int, b: int|
        0 <= a < s2.len() && 0 <= b < s2.len() && (#[trigger] s2[a].id) == (#[trigger] s2[b].id)
            implies a == b by {
        let a0 = if a < i {
            a
        } else {
            a + 1
        };
        let b0 = if b < i {
            b
        } else {
            b + 1
        };
        assert(s2[a] == s[a0] && s2[b] == s[b0]);
    }
    assert forall|x: usize| #[trigger] has_sid(s2, x) implies has_sid(s, x) && x != s[i].id by {
        let a = sid_idx(s2, x);
        assert(0 <= a < s2.len() && s2[a].id == x);
        let a0 = if a < i {
            a
        } else {
            a + 1
        };
        assert(s2[a] == s[a0]);
        lemma_sid_lookup(s, a0);
    }
    assert forall|x: usize| has_sid(s, x) && x != s[i].id implies #[trigger] has_sid(s2, x) by {
        let a = sid_idx(s, x);
        assert(0 <= a < s.len() && s[a].id == x);
        if a < i {
            assert(s2[a] == s[a]);
        } else {
            assert(a > i) by {
                lemma_sid_lookup(s, a);
                lemma_sid_lookup(s, i);
            }
            assert(s2[a - 1] == s[a]);
        }
    }
    assert forall|x: usize| #[trigger] has_sid(s2, x) implies smap(s2)[x] == smap(s).remove(
        s[i].id,
    )[x] by {
        let a = sid_idx(s2, x);
        assert(0 <= a < s2.len() && s2[a].id == x);
        lemma_sid_lookup(s2, a);
        let a0 = if a < i {
            a
        } else {
            a + 1
        };
        assert(s2[a] == s[a0]);
        lemma_sid_lookup(s, a0);
    }
}

proof fn lemma_rmap_names(r1: Seq<Room>, r2: Seq<Room>)
    requires
        unique_rnames(r1),
        r2.len() == r1.len(),
        forall|i: int| 0 <= i < r1.len() ==> (#[trigger] r2[i].name@) == r1[i].name@,
    ensures
        unique_rnames(r2),
        forall|n: Seq<char>| #[trigger] has_rname(r2, n) <==> has_rname(r1, n),
        forall|n: Seq<char>| #[trigger] has_rname(r1, n) ==> rname_idx(r2, n) == rname_idx(r1, n),
{
    assert forall|n: Seq<char>| #[trigger] has_rname(r2, n) implies has_rname(r1, n) by {
        let i = rname_idx(r2, n);
        assert(0 <= i < r2.len() && r2[i].name@ == n);
        assert(r1[i].name@ == n);
    }
    assert forall|n: Seq<char>| has_rname(r1, n) implies #[trigger] has_rname(r2, n) by {
        let i = rname_idx(r1, n);
        assert(0 <= i < r1.len() && r1[i].name@ == n);
        assert(r2[i].name@ == n);
    }
    assert forall|n: Seq<char>| #[trigger] has_rname(r1, n) implies rname_idx(r2, n) == rname_idx(
        r1,
        n,
    ) by {
        let i = rname_idx(r1, n);
        assert(0 <= i < r1.len() && r1[i].name@ == n);
        assert(r2[i].name@ == n);
        assert(has_rname(r2, n));
        let j = rname_idx(r2, n);
        assert(0 <= j < r2.len() && r2[j].name@ == n);
        assert(r1[j].name@ == n);
    }
}

proof fn lemma_smap_push(s: Seq<Session>, e: Session)
    requires
        unique_ids(s),
        !has_sid(s, e.id),
    ensures
        unique_ids(s.push(e)),
        forall|x: usize| #[trigger] has_sid(s.push(e), x) <==> has_sid(s, x) || x == e.id,
        smap(s.push(e)) =~= smap(s).insert(e.id, e.name@),
{
    let s2 = s.push(e);
    assert forall|i: int, j: int|
        0 <= i < s2.len() && 0 <= j < s2.len() && (#[trigger] s2[i].id) == (#[trigger] s2[j].id)
            implies i == j by {
        if i < s.len() && j < s.len() {
            assert(s[i] == s2[i] && s[j] == s2[j]);
        } else if i < s.len() && j == s.len() {
            assert(s[i] == s2[i]);
            lemma_sid_lookup(s, i);
        } else if i == s.len() && j < s.len() {
            assert(s[j] == s2[j]);
            lemma_sid_lookup(s, j);
        }
    }
    assert forall|x: usize| #[trigger] has_sid(s2, x) implies has_sid(s, x) || x == e.id by {
        let i = sid_idx(s2, x);
        assert(0 <= i < s2.len() && s2[i].id == x);
        if i < s.len() {
            assert(s[i] == s2[i]);
            lemma_sid_lookup(s, i);
        }
    }
    assert forall|x: usize| has_sid(s, x) implies #[trigger] has_sid(s2, x) by {
        let i = sid_idx(s, x);
        assert(0 <= i < s.len() && s[i].id == x);
        assert(s2[i].id == x);
    }
    assert(has_sid(s2, e.id)) by {
        assert(s2[s.len() as int].id == e.id);
    }
    assert forall|x: usize| #[trigger] has_sid(s2, x) implies smap(s2)[x] == smap(s).insert(
        e.id,
        e.name@,
    )[x] by {
        let i = sid_idx(s2, x);
        assert(0 <= i < s2.len() && s2[i].id == x);
        lemma_sid_lookup(s2, i);
        if x == e.id {
            assert(i == s.len());
            assert(s2[i].name@ == e.name@);
        } else {
            assert(i < s.len());
            assert(s[i] == s2[i]);
            lemma_sid_lookup(s, i);
        }
    }
}

} // verus!
