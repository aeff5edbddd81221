//! A room: up to two participants, the delivery handle of each, and their game.
use vstd::prelude::*;
use crate::game::{GameState, GameView, Mark, Status};

verus! {

/// Most participants a room holds.
pub const CAPACITY: usize = 2;

/// A room. `players[i]` is reached through the delivery handle `addrs[i]`;
/// the first participant plays `X`, the second `O`.
#[derive(Debug)]
pub struct Room {
    pub id: u128,
    pub players: Vec<u128>,
    pub addrs: Vec<u64>,
    pub game: GameState,
}

/// The mark of the participant at position `i` of a room.
pub open spec fn mark_at(i: int) -> Option<Mark> {
    if i == 0 {
        Some(Mark::X)
    } else if i == 1 {
        Some(Mark::O)
    } else {
        None
    }
}

impl Room {
    /// At most two distinct participants, each with one handle.
    pub open spec fn wf(&self) -> bool {
        &&& self.players@.len() <= CAPACITY
        &&& self.addrs@.len() == self.players@.len()
        &&& self.players@.no_duplicates()
    }

    /// What `mark_for` returns.
    pub open spec fn spec_mark_for(&self, user: u128) -> Option<Mark> {
        if self.players@.len() > 0 && self.players@[0] == user {
            Some(Mark::X)
        } else if self.players@.len() > 1 && self.players@[1] == user {
            Some(Mark::O)
        } else {
            None
        }
    }

    /// The game once the room has been given a chance to start it.
    pub open spec fn started_game(players: nat, g: GameView) -> GameView {
        if players == 2 && g.status == Status::Waiting {
            GameView::fresh(Status::Playing)
        } else {
            g
        }
    }

    /// An empty room whose game waits for players.
    pub fn new(id: u128) -> (r: Room)
        ensures
            r.id == id,
            r.players@.len() == 0,
            r.addrs@.len() == 0,
            r.game@ == GameView::fresh(Status::Waiting),
            r.wf(),
    {
        Room { id, players: Vec::new(), addrs: Vec::new(), game: GameState::new(Status::Waiting) }
    }

    /// Whether the room holds two participants.
    pub fn is_full(&self) -> (r: bool)
        ensures
            r == (self.players@.len() == CAPACITY),
    {
        self.players.len() == CAPACITY
    }

    /// Where `user` stands in the list of participants.
    pub fn position_of(&self, user: u128) -> (r: Option<usize>)
        ensures
            match r {
                Some(i) => i < self.players@.len() && self.players@[i as int] == user,
                None => !self.players@.contains(user),
            },
    {
        let mut i: usize = 0;
        while i < self.players.len()
            invariant
                i <= self.players@.len(),
                forall|j: int| 0 <= j < i ==> self.players@[j] != user,
            decreases self.players@.len() - i,
        {
            if self.players[i] == user {
                return Some(i);
            }
            i += 1;
        }
        None
    }

    /// The mark of `user`: `X` for the first participant, `O` for the second.
    pub fn mark_for(&self, user: u128) -> (r: Option<Mark>)
        ensures
            r == self.spec_mark_for(user),
    {
        if self.players.len() > 0 && self.players[0] == user {
            Some(Mark::X)
        } else if self.players.len() > 1 && self.players[1] == user {
            Some(Mark::O)
        } else {
            None
        }
    }

    /// Starts the game on an empty board with `X` to move once two
    /// participants are present; does nothing after it started.
    pub fn start_game_if_ready(&mut self)
        ensures
            final(self).id == old(self).id,
            final(self).players == old(self).players,
            final(self).addrs == old(self).addrs,
            final(self).game@ == Room::started_game(old(self).players@.len(), old(self).game@),
    {
        if self.players.len() == 2 {
            match self.game.status {
                Status::Waiting => {
                    self.game = GameState::new(Status::Playing);
                },
                _ => {},
            }
        }
    }
}

} // verus!
