//! What the server pushes to a client: state snapshots and short notices.
use vstd::prelude::*;
use crate::game::{GameState, Mark};
use crate::room::Room;

verus! {

/// A failure reported by the registry for a join or a move.
#[derive(Clone, Copy, Debug, PartialEq, Eq, Structural)]
pub enum RoomError {
    RoomNotFound,
    RoomFull,
    NotInRoom,
    NoAssignedMark,
    IllegalMove,
}

/// Why a client command was answered with an error notice.
#[derive(Clone, Copy, Debug, PartialEq, Eq, Structural)]
pub enum Failure {
    /// The registry refused the command.
    Room(RoomError),
    /// The command named a room by text that is no room id.
    InvalidRoomId,
    /// The payload is not one of the commands.
    MalformedCommand,
    /// The registry could not be reached.
    Internal,
}

/// The state of a room as its participants see it.
#[derive(Clone, Copy, Debug)]
pub struct Snapshot {
    pub room_id: u128,
    pub game: GameState,
    pub players: usize,
}

/// A message for one client.
#[derive(Clone, Copy, Debug)]
pub enum Notice {
    Connected { user_id: u128 },
    Joined { snapshot: Snapshot, mark: Mark },
    Rejoined { snapshot: Snapshot, mark: Mark },
    PlayerJoined { snapshot: Snapshot },
    PlayerLeft { room_id: u128, user_id: u128, players: usize },
    PlayerMoved { snapshot: Snapshot, position: usize, mark: Mark },
    Left { room_id: u128 },
    Error { failure: Failure },
}

/// A notice addressed to one delivery handle.
#[derive(Clone, Copy, Debug)]
pub struct Delivery {
    pub handle: u64,
    pub notice: Notice,
}

/// The snapshot of `room`.
pub open spec fn snapshot(room: Room) -> Snapshot {
    Snapshot { room_id: room.id, game: room.game, players: room.players@.len() as usize }
}

/// Takes the snapshot of `room`.
pub fn snapshot_of(room: &Room) -> (s: Snapshot)
    ensures
        s == snapshot(*room),
{
    Snapshot { room_id: room.id, game: room.game, players: room.players.len() }
}

} // verus!
