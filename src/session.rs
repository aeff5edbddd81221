//! The decisions of one client connection: liveness, decoding commands into
//! registry requests, and turning the registry's replies into notices. The
//! connection itself (the wire, the timer, the mailbox) is driven from outside.
use vstd::prelude::*;
use crate::notice::{Failure, Notice, RoomError};
use crate::registry::{JoinRoom, LeaveRoom, PlayerMove};

verus! {

/// How often a liveness probe is sent, in milliseconds.
pub const PING_INTERVAL_MS: u64 = 5000;

/// How long a peer may stay silent before it is taken for dead, in milliseconds.
pub const CLIENT_TIMEOUT_MS: u64 = 10000;

/// The room id that `s` spells, if any.
pub uninterp spec fn parsed_uuid(s: Seq<char>) -> Option<u128>;

/// Relies on uuid::Uuid::parse_str: the id that the text spells, or none;
/// the outcome depends on the text alone. The parser takes 32 hex digits, the
/// hyphenated 36-character form, that form in braces (38) or after
/// `urn:uuid:` (45), all in ASCII; text of any other length is no id.
#[verifier::external_body]
fn parse_room_id(s: &String) -> (r: Option<u128>)
    ensures
        r == parsed_uuid(s@),
        !(s@.len() == 32 || s@.len() == 36 || s@.len() == 38 || s@.len() == 45) ==> r is None,
{
    match uuid::Uuid::parse_str(s.as_str()) {
        Ok(id) => Some(id.as_u128()),
        Err(_) => None,
    }
}

/// A command sent by a client.
#[derive(Debug)]
#[allow(inconsistent_fields)]
pub enum ClientCmd {
    Join { room_id: Option<String> },
    Move { room_id: String, position: usize },
    Leave { room_id: String },
}

/// What a connection does about one inbound text frame.
#[derive(Clone, Copy, Debug)]
pub enum Step {
    /// Answer on the own wire only.
    Reply(Notice),
    /// Ask the registry to join, and wait for its reply.
    Join(JoinRoom),
    /// Ask the registry to play, and wait for its reply.
    Move(PlayerMove),
    /// Tell the registry, without waiting, and answer on the own wire.
    Leave(LeaveRoom, Notice),
}

/// What the liveness timer does when it fires.
#[derive(Clone, Copy, Debug, PartialEq, Eq, Structural)]
pub enum Beat {
    Ping,
    Stop,
}

/// A frame other than text, or the failure to read one.
#[derive(Clone, Copy, Debug, PartialEq, Eq, Structural)]
pub enum Signal {
    Ping,
    Pong,
    Close,
    Broken,
    Other,
}

/// What the connection does about a signal.
#[derive(Clone, Copy, Debug, PartialEq, Eq, Structural)]
pub enum Reaction {
    Pong,
    Stop,
    Nothing,
}

/// One connected client: its user, the handle through which the registry
/// reaches it, the room it believes it is in, when the peer was last heard,
/// and whether a join or move waits for the registry's reply (further
/// commands then wait their turn).
#[derive(Clone, Copy, Debug)]
pub struct WsClient {
    pub user_id: u128,
    pub addr: u64,
    pub current_room: Option<u128>,
    pub hb: u64,
    pub awaiting: bool,
}

/// Whether a peer last heard at `hb` counts as dead at `now`.
pub open spec fn timed_out(hb: u64, now: u64) -> bool {
    now > hb && now - hb > CLIENT_TIMEOUT_MS
}

impl WsClient {
    /// A connection of `user_id`, reached through `addr`, heard at `now`.
    pub fn new(user_id: u128, addr: u64, now: u64) -> (r: WsClient)
        ensures
            r.user_id == user_id,
            r.addr == addr,
            r.current_room is None,
            r.hb == now,
            !r.awaiting,
    {
        WsClient { user_id, addr, current_room: None, hb: now, awaiting: false }
    }

    /// The notice sent when the connection becomes active.
    pub fn started(&self) -> (r: Notice)
        ensures
            r == (Notice::Connected { user_id: self.user_id }),
    {
        Notice::Connected { user_id: self.user_id }
    }

    /// Stop once the peer has been silent for longer than the timeout,
    /// otherwise send a probe.
    pub fn hb(&self, now: u64) -> (r: Beat)
        ensures
            r == (if timed_out(self.hb, now) {
                Beat::Stop
            } else {
                Beat::Ping
            }),
    {
        if now > self.hb && now - self.hb > CLIENT_TIMEOUT_MS {
            Beat::Stop
        } else {
            Beat::Ping
        }
    }

    /// Whether the next command may be handled now: no join or move waits
    /// for the registry's reply.
    pub fn ready(&self) -> (r: bool)
        ensures
            r == !self.awaiting,
    {
        !self.awaiting
    }

    /// What a non-text frame, or a failed read, does: a probe is answered, a
    /// probe or its answer counts as hearing from the peer at `now`, a close
    /// or a broken channel stops the connection.
    pub fn on_signal(&mut self, s: Signal, now: u64) -> (r: Reaction)
        ensures
            match s {
                Signal::Ping => r == Reaction::Pong && *final(self) == (WsClient { hb: now, ..*old(self) }),
                Signal::Pong => r == Reaction::Nothing && *final(self) == (WsClient {
                    hb: now,
                    ..*old(self)
                }),
                Signal::Close | Signal::Broken => r == Reaction::Stop && *final(self) == *old(self),
                Signal::Other => r == Reaction::Nothing && *final(self) == *old(self),
            },
    {
        match s {
            Signal::Ping => {
                self.hb = now;
                Reaction::Pong
            },
            Signal::Pong => {
                self.hb = now;
                Reaction::Nothing
            },
            Signal::Close | Signal::Broken => Reaction::Stop,
            Signal::Other => Reaction::Nothing,
        }
    }

    /// What `step_for` does: from `before` to `after`, with `r` as the step.
    pub open spec fn step_for_spec(
        before: WsClient,
        after: WsClient,
        cmd: Option<ClientCmd>,
        parsed: Option<u128>,
        r: Step,
    ) -> bool {
        match cmd {
            None => r == Step::Reply(Notice::Error { failure: Failure::MalformedCommand })
                && after == before,
            Some(ClientCmd::Join { room_id }) => match (room_id, parsed) {
                (None, _) => r == Step::Join(
                    JoinRoom { room_id: None, user_id: before.user_id, addr: before.addr },
                ) && after == (WsClient { awaiting: true, ..before }),
                (Some(_), Some(id)) => r == Step::Join(
                    JoinRoom { room_id: Some(id), user_id: before.user_id, addr: before.addr },
                ) && after == (WsClient { awaiting: true, ..before }),
                (Some(_), None) => r == Step::Reply(
                    Notice::Error { failure: Failure::InvalidRoomId },
                ) && after == before,
            },
            Some(ClientCmd::Move { room_id, position }) => match parsed {
                Some(id) => r == Step::Move(
                    PlayerMove { room_id: id, user_id: before.user_id, position },
                ) && after == (WsClient { awaiting: true, ..before }),
                None => r == Step::Reply(Notice::Error { failure: Failure::InvalidRoomId })
                    && after == before,
            },
            Some(ClientCmd::Leave { room_id }) => match parsed {
                Some(id) => r == Step::Leave(
                    LeaveRoom { room_id: id, user_id: before.user_id },
                    Notice::Left { room_id: id },
                ) && after == (WsClient { current_room: None, ..before }),
                None => r == Step::Reply(Notice::Error { failure: Failure::InvalidRoomId })
                    && after == before,
            },
        }
    }

    /// The step for `cmd` (`None` when the frame was no command), given the id
    /// that its room text spells (`parsed`). A join without room text asks for
    /// a new room; a join, move or leave whose room text is no id is answered
    /// with an error and goes no further. A join or move sent to the registry
    /// makes further commands wait for its reply. A leave forgets the current
    /// room at once.
    pub fn step_for(&mut self, cmd: &Option<ClientCmd>, parsed: Option<u128>) -> (r: Step)
        ensures
            WsClient::step_for_spec(*old(self), *final(self), *cmd, parsed, r),
    {
        match cmd {
            None => Step::Reply(Notice::Error { failure: Failure::MalformedCommand }),
            Some(ClientCmd::Join { room_id }) => match (room_id, parsed) {
                (None, _) => {
                    self.awaiting = true;
                    Step::Join(JoinRoom { room_id: None, user_id: self.user_id, addr: self.addr })
                },
                (Some(_), Some(id)) => {
                    self.awaiting = true;
                    Step::Join(
                        JoinRoom { room_id: Some(id), user_id: self.user_id, addr: self.addr },
                    )
                },
                (Some(_), None) => Step::Reply(Notice::Error { failure: Failure::InvalidRoomId }),
            },
            Some(ClientCmd::Move { room_id: _, position }) => match parsed {
                Some(id) => {
                    self.awaiting = true;
                    Step::Move(
                        PlayerMove { room_id: id, user_id: self.user_id, position: *position },
                    )
                },
                None => Step::Reply(Notice::Error { failure: Failure::InvalidRoomId }),
            },
            Some(ClientCmd::Leave { room_id: _ }) => match parsed {
                Some(id) => {
                    self.current_room = None;
                    Step::Leave(
                        LeaveRoom { room_id: id, user_id: self.user_id },
                        Notice::Left { room_id: id },
                    )
                },
                None => Step::Reply(Notice::Error { failure: Failure::InvalidRoomId }),
            },
        }
    }

    /// The step for an inbound command, its room text read as an id.
    pub fn on_command(&mut self, cmd: &Option<ClientCmd>) -> (r: Step)
        ensures
            ({
                let parsed = match cmd {
                    Some(ClientCmd::Join { room_id: Some(s) }) => parsed_uuid(s@),
                    Some(ClientCmd::Move { room_id, position: _ }) => parsed_uuid(room_id@),
                    Some(ClientCmd::Leave { room_id }) => parsed_uuid(room_id@),
                    _ => None,
                };
                WsClient::step_for_spec(*old(self), *final(self), *cmd, parsed, r)
            }),
    {
        let parsed = match cmd {
            Some(ClientCmd::Join { room_id: Some(s) }) => parse_room_id(s),
            Some(ClientCmd::Move { room_id, position: _ }) => parse_room_id(room_id),
            Some(ClientCmd::Leave { room_id }) => parse_room_id(room_id),
            _ => None,
        };
        self.step_for(cmd, parsed)
    }

    /// The registry answered a join: `None` when it could not be reached. On
    /// success the room is remembered and nothing is said; a failure is
    /// reported to the client. Commands may be handled again.
    pub fn on_join_reply(&mut self, reply: Option<Result<u128, RoomError>>) -> (r: Option<Notice>)
        ensures
            match reply {
                Some(Ok(id)) => r is None && *final(self) == (WsClient {
                    current_room: Some(id),
                    awaiting: false,
                    ..*old(self)
                }),
                Some(Err(e)) => r == Some(Notice::Error { failure: Failure::Room(e) }) && *final(self)
                    == (WsClient { awaiting: false, ..*old(self) }),
                None => r == Some(Notice::Error { failure: Failure::Internal }) && *final(self)
                    == (WsClient { awaiting: false, ..*old(self) }),
            },
    {
        self.awaiting = false;
        match reply {
            Some(Ok(id)) => {
                self.current_room = Some(id);
                None
            },
            Some(Err(e)) => Some(Notice::Error { failure: Failure::Room(e) }),
            None => Some(Notice::Error { failure: Failure::Internal }),
        }
    }

    /// The registry answered a move: only its refusal is reported. Commands
    /// may be handled again.
    pub fn on_move_reply(&mut self, reply: Option<Result<(), RoomError>>) -> (r: Option<Notice>)
        ensures
            r == match reply {
                Some(Err(e)) => Some(Notice::Error { failure: Failure::Room(e) }),
                _ => None,
            },
            *final(self) == (WsClient { awaiting: false, ..*old(self) }),
    {
        self.awaiting = false;
        match reply {
            Some(Err(e)) => Some(Notice::Error { failure: Failure::Room(e) }),
            _ => None,
        }
    }

    /// The connection closes: leave the room it believes it is in.
    pub fn stopping(&self) -> (r: Option<LeaveRoom>)
        ensures
            r == match self.current_room {
                Some(id) => Some(LeaveRoom { room_id: id, user_id: self.user_id }),
                None => None,
            },
    {
        match self.current_room {
            Some(id) => Some(LeaveRoom { room_id: id, user_id: self.user_id }),
            None => None,
        }
    }
}

} // verus!
