//! The registry: the single owner of every room and of the index from user to
//! room. Each request runs to completion and returns the notices it produced.
use std::collections::HashMap;
use vstd::prelude::*;
use crate::game::{GameView, Mark};
use crate::notice::{snapshot, snapshot_of, Delivery, Notice, RoomError};
use crate::room::{Room, CAPACITY};

verus! {

broadcast use vstd::std_specs::hash::group_hash_axioms;

/// A request to join a room, or to create one when `room_id` is `None`.
#[derive(Clone, Copy, Debug)]
pub struct JoinRoom {
    pub room_id: Option<u128>,
    pub user_id: u128,
    pub addr: u64,
}

/// A request to leave a room.
#[derive(Clone, Copy, Debug)]
pub struct LeaveRoom {
    pub room_id: u128,
    pub user_id: u128,
}

/// A request to play a cell.
#[derive(Clone, Copy, Debug)]
pub struct PlayerMove {
    pub room_id: u128,
    pub user_id: u128,
    pub position: usize,
}

/// Every room by id, and the room of every participant.
#[derive(Debug)]
pub struct RoomManager {
    pub rooms: HashMap<u128, Room>,
    pub user_room: HashMap<u128, u128>,
}

/// The mark of the participant at position `i`.
pub open spec fn mark_of_slot(i: int) -> Mark {
    if i == 0 {
        Mark::X
    } else {
        Mark::O
    }
}

/// The position of `user` in a room of at most two participants.
pub open spec fn slot_of(room: Room, user: u128) -> int {
    if room.players@[0] == user {
        0
    } else {
        1
    }
}

/// The same notice for each handle of `addrs`, in order.
pub open spec fn to_all(addrs: Seq<u64>, notice: Notice) -> Seq<Delivery> {
    Seq::new(addrs.len(), |i: int| Delivery { handle: addrs[i], notice })
}

fn send_to_all(addrs: &Vec<u64>, notice: Notice) -> (out: Vec<Delivery>)
    ensures
        out@ == to_all(addrs@, notice),
{
    let mut out: Vec<Delivery> = Vec::new();
    let mut i: usize = 0;
    while i < addrs.len()
        invariant
            i <= addrs@.len(),
            out@ == to_all(addrs@.take(i as int), notice),
        decreases addrs@.len() - i,
    {
        out.push(Delivery { handle: addrs[i], notice });
        i += 1;
        assert(out@ =~= to_all(addrs@.take(i as int), notice));
    }
    assert(addrs@.take(i as int) =~= addrs@);
    out
}

/// How many random ids a join draws for a new room before it searches.
pub const MAX_ID_DRAWS: usize = 8;

/// Relies on uuid::Uuid::new_v4: a random id, taken as its 128-bit value.
#[verifier::external_body]
fn new_room_id() -> (r: u128) {
    uuid::Uuid::new_v4().as_u128()
}

impl RoomManager {
    /// Every room holds at most two distinct participants and is not empty;
    /// a user is indexed to a room exactly when the room lists the user.
    pub open spec fn wf(&self) -> bool {
        &&& forall|r: u128| #[trigger]
            self.rooms@.contains_key(r) ==> {
                &&& self.rooms@[r].wf()
                &&& self.rooms@[r].id == r
                &&& self.rooms@[r].players@.len() > 0
            }
        &&& forall|r: u128, i: int|
            self.rooms@.contains_key(r) && 0 <= i < self.rooms@[r].players@.len()
                ==> self.user_room@.contains_key(#[trigger] self.rooms@[r].players@[i])
                && self.user_room@[self.rooms@[r].players@[i]] == r
        &&& forall|u: u128| #[trigger]
            self.user_room@.contains_key(u) ==> {
                &&& self.rooms@.contains_key(self.user_room@[u])
                &&& self.rooms@[self.user_room@[u]].players@.contains(u)
            }
    }

    /// No rooms and no participants.
    pub fn new() -> (r: RoomManager)
        ensures
            r.wf(),
            r.rooms@.len() == 0,
            r.user_room@.len() == 0,
    {
        RoomManager { rooms: HashMap::new(), user_room: HashMap::new() }
    }

    /// `self` holds the same rooms and the same index as `other`.
    pub open spec fn same_as(&self, other: &RoomManager) -> bool {
        self.rooms@ == other.rooms@ && self.user_room@ == other.user_room@
    }

    /// The participants of room `t` before a join: none for a new room.
    pub open spec fn players_before(&self, t: u128) -> Seq<u128> {
        if self.rooms@.contains_key(t) {
            self.rooms@[t].players@
        } else {
            Seq::empty()
        }
    }

    /// The handles of room `t` before a join: none for a new room.
    pub open spec fn addrs_before(&self, t: u128) -> Seq<u64> {
        if self.rooms@.contains_key(t) {
            self.rooms@[t].addrs@
        } else {
            Seq::empty()
        }
    }

    /// The game of room `t` before a join: a waiting one for a new room.
    pub open spec fn game_before(&self, t: u128) -> GameView {
        if self.rooms@.contains_key(t) {
            self.rooms@[t].game@
        } else {
            GameView::fresh(crate::game::Status::Waiting)
        }
    }

    /// The room that a join of a user not yet in a room aims at.
    pub open spec fn join_target(msg: JoinRoom, fresh: u128) -> u128 {
        match msg.room_id {
            Some(t) => t,
            None => fresh,
        }
    }

    /// The outcome of a join by a user who already has a room: the room is
    /// unchanged but for the user's handle, which becomes `msg.addr`, and only
    /// that handle is told the room's state.
    pub open spec fn rejoined(
        &self,
        after: &RoomManager,
        msg: JoinRoom,
        r: (Result<u128, RoomError>, Vec<Delivery>),
    ) -> bool {
        let rid = self.user_room@[msg.user_id];
        let before = self.rooms@[rid];
        let room = after.rooms@[rid];
        let i = slot_of(before, msg.user_id);
        &&& r.0 == Ok::<u128, RoomError>(rid)
        &&& after.user_room@ == self.user_room@
        &&& after.rooms@.contains_key(rid)
        &&& after.rooms@.remove(rid) == self.rooms@.remove(rid)
        &&& room.id == rid
        &&& room.players == before.players
        &&& room.game == before.game
        &&& room.addrs@ == before.addrs@.update(i, msg.addr)
        &&& r.1@ == seq![
            Delivery {
                handle: msg.addr,
                notice: Notice::Rejoined { snapshot: snapshot(room), mark: mark_of_slot(i) },
            },
        ]
    }

    /// The outcome of a successful join of room `t` by a user who had none:
    /// the user is appended with its handle, indexed to `t`, the game starts
    /// once two are present; the joiner gets its state and mark, the other
    /// participant is told someone joined.
    pub open spec fn joined(
        &self,
        after: &RoomManager,
        msg: JoinRoom,
        t: u128,
        r: (Result<u128, RoomError>, Vec<Delivery>),
    ) -> bool {
        let room = after.rooms@[t];
        let n = room.players@.len();
        let first = seq![
            Delivery {
                handle: msg.addr,
                notice: Notice::Joined { snapshot: snapshot(room), mark: mark_of_slot(n - 1) },
            },
        ];
        &&& r.0 == Ok::<u128, RoomError>(t)
        &&& after.user_room@ == self.user_room@.insert(msg.user_id, t)
        &&& after.rooms@.contains_key(t)
        &&& after.rooms@.remove(t) == self.rooms@.remove(t)
        &&& room.id == t
        &&& room.players@ == self.players_before(t).push(msg.user_id)
        &&& room.addrs@ == self.addrs_before(t).push(msg.addr)
        &&& room.game@ == Room::started_game(n, self.game_before(t))
        &&& r.1@ == if n == 2 {
            first + seq![
                Delivery { handle: room.addrs@[0], notice: Notice::PlayerJoined { snapshot: snapshot(room) } },
            ]
        } else {
            first
        }
    }

    /// What a join does, with `fresh` as the id of the room to create when
    /// `msg.room_id` is `None`.
    pub open spec fn join_outcome(
        &self,
        after: &RoomManager,
        msg: JoinRoom,
        fresh: u128,
        r: (Result<u128, RoomError>, Vec<Delivery>),
    ) -> bool {
        if self.user_room@.contains_key(msg.user_id) {
            self.rejoined(after, msg, r)
        } else {
            let t = RoomManager::join_target(msg, fresh);
            if msg.room_id is Some && !self.rooms@.contains_key(t) {
                &&& r.0 == Err::<u128, RoomError>(RoomError::RoomNotFound)
                &&& after.same_as(self)
                &&& r.1@.len() == 0
            } else if self.rooms@.contains_key(t) && self.rooms@[t].players@.len() == CAPACITY {
                &&& r.0 == Err::<u128, RoomError>(RoomError::RoomFull)
                &&& after.same_as(self)
                &&& r.1@.len() == 0
            } else {
                self.joined(after, msg, t, r)
            }
        }
    }

    /// Joins `msg.user_id` to a room, with `fresh` as the id of the room to
    /// create when `msg.room_id` is `None`. A user who already has a room is
    /// reattached to it with the new handle. Otherwise a named room that does
    /// not exist gives `RoomNotFound`, a full one `RoomFull`, and neither
    /// changes anything.
    pub fn join_room_with(&mut self, msg: JoinRoom, fresh: u128) -> (r: (
        Result<u128, RoomError>,
        Vec<Delivery>,
    ))
        requires
            old(self).wf(),
        ensures
            final(self).wf(),
            old(self).join_outcome(final(self), msg, fresh, r),
    {
        let user = msg.user_id;
        let existing: Option<u128> = match self.user_room.get(&user) {
            Some(rid) => Some(*rid),
            None => None,
        };
        if let Some(rid) = existing {
            assert(self.rooms@.contains_key(rid));
            let ghost before = self.rooms@[rid];
            match self.rooms.remove(&rid) {
                Some(mut room) => {
                    let i: usize = if room.players[0] == user {
                        0
                    } else {
                        1
                    };
                    room.addrs.set(i, msg.addr);
                    let mark = if i == 0 {
                        Mark::X
                    } else {
                        Mark::O
                    };
                    let notice = Notice::Rejoined { snapshot: snapshot_of(&room), mark };
                    let ghost after = room;
                    self.rooms.insert(rid, room);
                    let out = vec![Delivery { handle: msg.addr, notice }];
                    proof {
                        assert(self.rooms@[rid] == after);
                        assert(self.rooms@.remove(rid) =~= old(self).rooms@.remove(rid));
                        self.lemma_wf_same_members(old(self), rid);
                        assert(out@ =~= seq![Delivery { handle: msg.addr, notice }]);
                    }
                    return (Ok(rid), out);
                },
                None => {},
            }
        }
        let target: u128 = match msg.room_id {
            Some(rid) => {
                if !self.rooms.contains_key(&rid) {
                    return (Err(RoomError::RoomNotFound), Vec::new());
                }
                rid
            },
            None => fresh,
        };
        let full = match self.rooms.get(&target) {
            Some(room) => room.is_full(),
            None => false,
        };
        if full {
            return (Err(RoomError::RoomFull), Vec::new());
        }
        let mut room = match self.rooms.remove(&target) {
            Some(room) => room,
            None => Room::new(target),
        };
        assert(room.players@ =~= old(self).players_before(target));
        assert(room.addrs@ =~= old(self).addrs_before(target));
        assert(room.game@ == old(self).game_before(target));
        room.players.push(user);
        room.addrs.push(msg.addr);
        room.start_game_if_ready();
        self.user_room.insert(user, target);
        let snap = snapshot_of(&room);
        let mark = if room.players.len() == 1 {
            Mark::X
        } else {
            Mark::O
        };
        let first = Delivery { handle: msg.addr, notice: Notice::Joined { snapshot: snap, mark } };
        let mut out: Vec<Delivery> = Vec::new();
        out.push(first);
        if room.players.len() == 2 {
            let second = Delivery {
                handle: room.addrs[0],
                notice: Notice::PlayerJoined { snapshot: snap },
            };
            out.push(second);
            assert(out@ =~= seq![first] + seq![second]);
        } else {
            assert(out@ =~= seq![first]);
        }
        let ghost after = room;
        self.rooms.insert(target, room);
        proof {
            assert(self.rooms@[target] == after);
            assert(self.rooms@.remove(target) =~= old(self).rooms@.remove(target));
            self.lemma_wf_after_join(old(self), target, user);
        }
        (Ok(target), out)
    }

    /// An id that names no room: the first of 0, 1, 2, ... that is free.
    /// Of the `rooms.len() + 1` first ids one at least is free.
    fn unused_room_id(&self) -> (r: u128)
        ensures
            !self.rooms@.contains_key(r),
    {
        let n = self.rooms.len();
        let mut id: u128 = 0;
        while id <= n as u128 && self.rooms.contains_key(&id)
            invariant
                n == self.rooms@.len(),
                id <= n as u128 + 1,
                forall|j: u128| j < id ==> self.rooms@.contains_key(j),
            decreases n as u128 + 1 - id,
        {
            id += 1;
        }
        proof {
            if id > n as u128 {
                lemma_prefix_count(self.rooms@.dom(), id as nat);
            }
        }
        id
    }

    /// Joins `msg.user_id` to a room as `join_room_with` does. When a new
    /// room is needed (no room id given, user in no room), its id is drawn at
    /// random, again while it names an existing room, at most
    /// `MAX_ID_DRAWS` times, and then taken as the first free one; such a
    /// join always succeeds, with a room of its own.
    pub fn join_room(&mut self, msg: JoinRoom) -> (r: (Result<u128, RoomError>, Vec<Delivery>))
        requires
            old(self).wf(),
        ensures
            final(self).wf(),
            exists|fresh: u128|
                (msg.room_id is None && !old(self).user_room@.contains_key(msg.user_id)
                    ==> !old(self).rooms@.contains_key(fresh)) && #[trigger] old(self).join_outcome(
                    final(self),
                    msg,
                    fresh,
                    r,
                ),
            msg.room_id is None && !old(self).user_room@.contains_key(msg.user_id) ==> {
                &&& r.0 is Ok
                &&& !old(self).rooms@.contains_key(r.0->Ok_0)
                &&& final(self).rooms@[r.0->Ok_0].players@ == seq![msg.user_id]
                &&& final(self).user_room@[msg.user_id] == r.0->Ok_0
            },
    {
        let creates = msg.room_id.is_none() && !self.user_room.contains_key(&msg.user_id);
        let mut fresh = new_room_id();
        let mut draws: usize = 1;
        while creates && self.rooms.contains_key(&fresh) && draws < MAX_ID_DRAWS
            invariant
                self.wf(),
                self.rooms@ == old(self).rooms@,
                self.user_room@ == old(self).user_room@,
                1 <= draws <= MAX_ID_DRAWS,
            decreases MAX_ID_DRAWS - draws,
        {
            fresh = new_room_id();
            draws += 1;
        }
        if creates && self.rooms.contains_key(&fresh) {
            fresh = self.unused_room_id();
        }
        let r = self.join_room_with(msg, fresh);
        proof {
            if creates {
                assert(old(self).players_before(fresh) =~= Seq::<u128>::empty());
                assert(seq![msg.user_id] =~= Seq::<u128>::empty().push(msg.user_id));
            }
        }
        r
    }

    /// Whether `user` is a participant of room `room_id`.
    pub open spec fn is_member(&self, room_id: u128, user: u128) -> bool {
        self.rooms@.contains_key(room_id) && self.rooms@[room_id].players@.contains(user)
    }

    /// The outcome of a leave by a participant: the user is gone from the
    /// room and from the index, the room is gone once empty, and each
    /// remaining handle is told how many stay.
    pub open spec fn left(&self, after: &RoomManager, msg: LeaveRoom, out: Seq<Delivery>) -> bool {
        let rid = msg.room_id;
        let before = self.rooms@[rid];
        let i = slot_of(before, msg.user_id);
        let players = before.players@.remove(i);
        let addrs = before.addrs@.remove(i);
        let room = after.rooms@[rid];
        &&& after.user_room@ == self.user_room@.remove(msg.user_id)
        &&& if players.len() == 0 {
            after.rooms@ == self.rooms@.remove(rid)
        } else {
            &&& after.rooms@.contains_key(rid)
            &&& after.rooms@.remove(rid) == self.rooms@.remove(rid)
            &&& room.id == rid
            &&& room.players@ == players
            &&& room.addrs@ == addrs
            &&& room.game == before.game
        }
        &&& out == to_all(
            addrs,
            Notice::PlayerLeft { room_id: rid, user_id: msg.user_id, players: players.len() as usize },
        )
    }

    /// Takes `msg.user_id` out of room `msg.room_id`. Nothing happens when the
    /// room does not exist or does not hold the user.
    pub fn leave_room(&mut self, msg: LeaveRoom) -> (out: Vec<Delivery>)
        requires
            old(self).wf(),
        ensures
            final(self).wf(),
            old(self).is_member(msg.room_id, msg.user_id) ==> old(self).left(final(self), msg, out@),
            !old(self).is_member(msg.room_id, msg.user_id) ==> final(self).same_as(old(self)) && out@.len()
                == 0,
    {
        let rid = msg.room_id;
        let user = msg.user_id;
        let found = match self.rooms.get(&rid) {
            Some(room) => room.position_of(user),
            None => None,
        };
        let i = match found {
            Some(i) => i,
            None => return Vec::new(),
        };
        let ghost before = self.rooms@[rid];
        proof {
            if i == 1 {
                assert(before.players@[0] != before.players@[1]);
            }
            assert(i as int == slot_of(before, user));
        }
        let mut room = match self.rooms.remove(&rid) {
            Some(room) => room,
            None => return Vec::new(),
        };
        room.players.remove(i);
        room.addrs.remove(i);
        self.user_room.remove(&user);
        let notice = Notice::PlayerLeft { room_id: rid, user_id: user, players: room.players.len() };
        let out = send_to_all(&room.addrs, notice);
        let ghost after = room;
        if room.players.len() > 0 {
            self.rooms.insert(rid, room);
            proof {
                assert(self.rooms@[rid] == after);
                assert(self.rooms@.remove(rid) =~= old(self).rooms@.remove(rid));
            }
        }
        proof {
            self.lemma_wf_after_leave(old(self), rid, user, i as int);
        }
        out
    }

    /// The mark that `user` plays in room `room_id`.
    pub open spec fn mark_in(&self, room_id: u128, user: u128) -> Mark {
        mark_of_slot(slot_of(self.rooms@[room_id], user))
    }

    /// The outcome of a legal move: only the game of the room changes, by the
    /// move, and every handle of the room, the mover's too, gets the new
    /// state with the move played.
    pub open spec fn moved(
        &self,
        after: &RoomManager,
        msg: PlayerMove,
        r: (Result<(), RoomError>, Vec<Delivery>),
    ) -> bool {
        let rid = msg.room_id;
        let before = self.rooms@[rid];
        let room = after.rooms@[rid];
        let mark = self.mark_in(rid, msg.user_id);
        &&& r.0 == Ok::<(), RoomError>(())
        &&& after.user_room@ == self.user_room@
        &&& after.rooms@.contains_key(rid)
        &&& after.rooms@.remove(rid) == self.rooms@.remove(rid)
        &&& room.id == before.id
        &&& room.players == before.players
        &&& room.addrs == before.addrs
        &&& room.game@ == before.game@.after(msg.position as int, mark)
        &&& r.1@ == to_all(
            before.addrs@,
            Notice::PlayerMoved { snapshot: snapshot(room), position: msg.position, mark },
        )
    }

    /// Plays `msg.position` for `msg.user_id` in room `msg.room_id`. The room
    /// must exist (`RoomNotFound`), hold the user (`NotInRoom`), and the game
    /// must take the move (`IllegalMove`); a refused move changes nothing and
    /// tells no one.
    pub fn player_move(&mut self, msg: PlayerMove) -> (r: (Result<(), RoomError>, Vec<Delivery>))
        requires
            old(self).wf(),
        ensures
            final(self).wf(),
            !old(self).rooms@.contains_key(msg.room_id) ==> r.0 == Err::<(), RoomError>(
                RoomError::RoomNotFound,
            ),
            old(self).rooms@.contains_key(msg.room_id) && !old(self).is_member(msg.room_id, msg.user_id)
                ==> r.0 == Err::<(), RoomError>(RoomError::NotInRoom),
            old(self).is_member(msg.room_id, msg.user_id) && !old(self).rooms@[msg.room_id].game@.legal(
                msg.position as int,
                old(self).mark_in(msg.room_id, msg.user_id),
            ) ==> r.0 == Err::<(), RoomError>(RoomError::IllegalMove),
            old(self).is_member(msg.room_id, msg.user_id) && old(self).rooms@[msg.room_id].game@.legal(
                msg.position as int,
                old(self).mark_in(msg.room_id, msg.user_id),
            ) ==> old(self).moved(final(self), msg, r),
            r.0 is Err ==> final(self).same_as(old(self)) && r.1@.len() == 0,
    {
        let rid = msg.room_id;
        let user = msg.user_id;
        let mark = match self.rooms.get(&rid) {
            None => return (Err(RoomError::RoomNotFound), Vec::new()),
            Some(room) => {
                if room.position_of(user).is_none() {
                    return (Err(RoomError::NotInRoom), Vec::new());
                }
                let mark = match room.mark_for(user) {
                    Some(m) => m,
                    None => return (Err(RoomError::NoAssignedMark), Vec::new()),
                };
                if !room.game.is_legal(msg.position, mark) {
                    return (Err(RoomError::IllegalMove), Vec::new());
                }
                mark
            },
        };
        let ghost before = self.rooms@[rid];
        let mut room = match self.rooms.remove(&rid) {
            Some(room) => room,
            None => return (Err(RoomError::RoomNotFound), Vec::new()),
        };
        let _ = room.game.apply_move(msg.position, mark);
        let notice = Notice::PlayerMoved {
            snapshot: snapshot_of(&room),
            position: msg.position,
            mark,
        };
        let out = send_to_all(&room.addrs, notice);
        let ghost after = room;
        self.rooms.insert(rid, room);
        proof {
            assert(self.rooms@[rid] == after);
            assert(self.rooms@.remove(rid) =~= old(self).rooms@.remove(rid));
            self.lemma_wf_same_members(old(self), rid);
        }
        (Ok(()), out)
    }

    proof fn lemma_wf_after_leave(&self, prev: &RoomManager, rid: u128, user: u128, i: int)
        requires
            prev.wf(),
            prev.rooms@.contains_key(rid),
            0 <= i < prev.rooms@[rid].players@.len(),
            prev.rooms@[rid].players@[i] == user,
            self.user_room@ == prev.user_room@.remove(user),
            prev.rooms@[rid].players@.len() == 1 ==> self.rooms@ == prev.rooms@.remove(rid),
            prev.rooms@[rid].players@.len() != 1 ==> {
                &&& self.rooms@.contains_key(rid)
                &&& self.rooms@.remove(rid) == prev.rooms@.remove(rid)
                &&& self.rooms@[rid].id == rid
                &&& self.rooms@[rid].players@ == prev.rooms@[rid].players@.remove(i)
                &&& self.rooms@[rid].addrs@.len() == self.rooms@[rid].players@.len()
            },
        ensures
            self.wf(),
    {
        let before = prev.rooms@[rid].players@;
        let rest = before.remove(i);
        assert forall|r: u128| #[trigger] self.rooms@.contains_key(r) && r != rid implies prev.rooms@.contains_key(r)
            && self.rooms@[r] == prev.rooms@[r] by {
            assert(self.rooms@.remove(rid).contains_key(r));
            assert(self.rooms@[r] == self.rooms@.remove(rid)[r]);
            assert(prev.rooms@[r] == prev.rooms@.remove(rid)[r]);
        }
        assert forall|r: u128| #[trigger] prev.rooms@.contains_key(r) && r != rid implies self.rooms@.contains_key(r) by {
            assert(prev.rooms@.remove(rid).contains_key(r));
        }
        assert forall|j: int| 0 <= j < rest.len() implies rest[j] != user by {
            if j < i {
                assert(rest[j] == before[j]);
            } else {
                assert(rest[j] == before[j + 1]);
            }
        }
        if before.len() != 1 {
            assert(rest.no_duplicates()) by {
                assert forall|a: int, b: int| 0 <= a < rest.len() && 0 <= b < rest.len() && a != b implies rest[a]
                    != rest[b] by {
                    let a2 = if a < i { a } else { a + 1 };
                    let b2 = if b < i { b } else { b + 1 };
                    assert(rest[a] == before[a2]);
                    assert(rest[b] == before[b2]);
                }
            }
        }
        assert forall|r: u128, j: int|
            self.rooms@.contains_key(r) && 0 <= j < self.rooms@[r].players@.len() implies self.user_room@.contains_key(
            #[trigger] self.rooms@[r].players@[j]) && self.user_room@[self.rooms@[r].players@[j]] == r by {
            if r != rid {
                let p = self.rooms@[r].players@[j];
                assert(prev.user_room@.contains_key(prev.rooms@[r].players@[j]));
                if p == user {
                    assert(prev.user_room@[user] == rid);
                }
            } else {
                let j2 = if j < i { j } else { j + 1 };
                assert(rest[j] == before[j2]);
                assert(prev.user_room@.contains_key(prev.rooms@[rid].players@[j2]));
            }
        }
        assert forall|u: u128| #[trigger] self.user_room@.contains_key(u) implies self.rooms@.contains_key(
            self.user_room@[u]) && self.rooms@[self.user_room@[u]].players@.contains(u) by {
            let r = prev.user_room@[u];
            assert(prev.rooms@[r].players@.contains(u));
            if r == rid {
                let k = choose|k: int| 0 <= k < before.len() && before[k] == u;
                assert(k != i);
                let k2 = if k < i { k } else { k - 1 };
                assert(rest[k2] == u);
                if before.len() == 1 {
                    assert(false);
                }
            }
        }
    }

    proof fn lemma_wf_same_members(&self, prev: &RoomManager, rid: u128)
        requires
            prev.wf(),
            self.user_room@ == prev.user_room@,
            prev.rooms@.contains_key(rid),
            self.rooms@.contains_key(rid),
            self.rooms@.remove(rid) == prev.rooms@.remove(rid),
            self.rooms@[rid].id == prev.rooms@[rid].id,
            self.rooms@[rid].players == prev.rooms@[rid].players,
            self.rooms@[rid].addrs@.len() == prev.rooms@[rid].addrs@.len(),
        ensures
            self.wf(),
    {
        assert forall|r: u128| #[trigger] self.rooms@.contains_key(r) implies prev.rooms@.contains_key(r)
            && (r != rid ==> self.rooms@[r] == prev.rooms@[r]) by {
            if r != rid {
                assert(self.rooms@.remove(rid).contains_key(r));
                assert(self.rooms@[r] == self.rooms@.remove(rid)[r]);
                assert(prev.rooms@[r] == prev.rooms@.remove(rid)[r]);
            }
        }
        assert forall|r: u128| #[trigger] prev.rooms@.contains_key(r) implies self.rooms@.contains_key(r) by {
            if r != rid {
                assert(prev.rooms@.remove(rid).contains_key(r));
            }
        }
    }

    proof fn lemma_wf_after_join(&self, prev: &RoomManager, t: u128, user: u128)
        requires
            prev.wf(),
            !prev.user_room@.contains_key(user),
            self.user_room@ == prev.user_room@.insert(user, t),
            self.rooms@.contains_key(t),
            self.rooms@.remove(t) == prev.rooms@.remove(t),
            self.rooms@[t].id == t,
            self.rooms@[t].players@ == prev.players_before(t).push(user),
            self.rooms@[t].addrs@.len() == self.rooms@[t].players@.len(),
            self.rooms@[t].players@.len() <= CAPACITY,
        ensures
            self.wf(),
    {
        let before = prev.players_before(t);
        assert forall|i: int| 0 <= i < before.len() implies before[i] != user by {
            assert(prev.rooms@.contains_key(t));
            assert(prev.user_room@.contains_key(prev.rooms@[t].players@[i]));
        }
        assert forall|r: u128| #[trigger] self.rooms@.contains_key(r) && r != t implies prev.rooms@.contains_key(r)
            && self.rooms@[r] == prev.rooms@[r] by {
            assert(self.rooms@.remove(t).contains_key(r));
            assert(self.rooms@[r] == self.rooms@.remove(t)[r]);
            assert(prev.rooms@[r] == prev.rooms@.remove(t)[r]);
        }
        assert forall|r: u128| #[trigger] prev.rooms@.contains_key(r) implies self.rooms@.contains_key(r) by {
            if r != t {
                assert(prev.rooms@.remove(t).contains_key(r));
            }
        }
        let now = self.rooms@[t].players@;
        assert(now.no_duplicates()) by {
            assert forall|i: int, j: int| 0 <= i < now.len() && 0 <= j < now.len() && i != j implies now[i]
                != now[j] by {
                if i < before.len() && j < before.len() {
                    assert(prev.rooms@[t].players@.no_duplicates());
                }
            }
        }
        assert forall|r: u128, i: int|
            self.rooms@.contains_key(r) && 0 <= i < self.rooms@[r].players@.len() implies self.user_room@.contains_key(
            #[trigger] self.rooms@[r].players@[i]) && self.user_room@[self.rooms@[r].players@[i]] == r by {
            if r != t {
                let p = self.rooms@[r].players@[i];
                assert(prev.user_room@.contains_key(p));
                if p == user {
                    assert(false);
                }
            } else if i < before.len() {
                assert(now[i] == before[i]);
                assert(prev.user_room@.contains_key(prev.rooms@[t].players@[i]));
            }
        }
        assert forall|u: u128| #[trigger] self.user_room@.contains_key(u) implies self.rooms@.contains_key(
            self.user_room@[u]) && self.rooms@[self.user_room@[u]].players@.contains(u) by {
            if u == user {
                assert(now[now.len() - 1] == user);
            } else {
                let r = prev.user_room@[u];
                assert(prev.rooms@[r].players@.contains(u));
                if r == t {
                    let k = choose|k: int| 0 <= k < before.len() && before[k] == u;
                    assert(now[k] == u);
                }
            }
        }
    }
}

/// A finite set of ids that holds each of the first `k` ids has at least
/// `k` elements.
proof fn lemma_prefix_count(s: Set<u128>, k: nat)
    requires
        s.finite(),
        k <= u64::MAX as nat + 1,
        forall|j: u128| (j as nat) < k ==> s.contains(j),
    ensures
        s.len() >= k,
    decreases k,
{
    if k > 0 {
        let last = (k - 1) as u128;
        let t = s.remove(last);
        assert forall|j: u128| (j as nat) < k - 1 implies t.contains(j) by {
            assert(s.contains(j));
        }
        lemma_prefix_count(t, (k - 1) as nat);
        assert(s.contains(last));
    }
}

/// However many joins, leaves and moves came before, no room holds more than
/// two participants, nor the same one twice, and a participant is indexed
/// to exactly the room that lists it.
pub proof fn lemma_room_capacity(m: &RoomManager, r: u128, u: u128)
    requires
        m.wf(),
        m.rooms@.contains_key(r),
    ensures
        0 < m.rooms@[r].players@.len() <= CAPACITY,
        m.rooms@[r].players@.no_duplicates(),
        m.rooms@[r].players@.contains(u) <==> (m.user_room@.contains_key(u) && m.user_room@[u] == r),
{
    if m.rooms@[r].players@.contains(u) {
        let i = choose|i: int| 0 <= i < m.rooms@[r].players@.len() && m.rooms@[r].players@[i] == u;
        assert(m.user_room@.contains_key(m.rooms@[r].players@[i]));
    }
}

} // verus!
