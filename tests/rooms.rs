use tictac_rooms::game::{GameState, Mark, Status};
use tictac_rooms::notice::{Failure, Notice, RoomError};
use tictac_rooms::registry::{JoinRoom, LeaveRoom, PlayerMove, RoomManager};
use tictac_rooms::room::Room;
use tictac_rooms::session::{Beat, ClientCmd, Reaction, Signal, Step, WsClient};
use tictac_rooms::user::Claims;

const A: u128 = 0xa1;
const B: u128 = 0xb2;
const C: u128 = 0xc3;

fn join(m: &mut RoomManager, room_id: Option<u128>, user_id: u128, addr: u64) -> Result<u128, RoomError> {
    m.join_room(JoinRoom { room_id, user_id, addr }).0
}

fn play(m: &mut RoomManager, room_id: u128, user_id: u128, position: usize) -> Result<(), RoomError> {
    m.player_move(PlayerMove { room_id, user_id, position }).0
}

fn pair() -> (RoomManager, u128) {
    let mut m = RoomManager::new();
    let rid = join(&mut m, None, A, 1).unwrap();
    assert_eq!(join(&mut m, Some(rid), B, 2), Ok(rid));
    (m, rid)
}

#[test]
fn full_game_scenario() {
    let mut m = RoomManager::new();
    let (r, out) = m.join_room(JoinRoom { room_id: None, user_id: A, addr: 1 });
    let rid = r.unwrap();
    assert_eq!(m.rooms[&rid].players, vec![A]);
    assert_eq!(m.rooms[&rid].game.status, Status::Waiting);
    assert_eq!(out.len(), 1);
    assert_eq!(out[0].handle, 1);
    assert!(matches!(out[0].notice, Notice::Joined { mark: Mark::X, .. }));

    let (r, out) = m.join_room(JoinRoom { room_id: Some(rid), user_id: B, addr: 2 });
    assert_eq!(r, Ok(rid));
    let room = &m.rooms[&rid];
    assert_eq!(room.game.status, Status::Playing);
    assert_eq!(room.mark_for(A), Some(Mark::X));
    assert_eq!(room.mark_for(B), Some(Mark::O));
    assert_eq!(room.game.turn, Mark::X);
    assert_eq!(out.len(), 2);
    assert_eq!(out[0].handle, 2);
    assert!(matches!(out[0].notice, Notice::Joined { mark: Mark::O, .. }));
    assert_eq!(out[1].handle, 1);
    assert!(matches!(out[1].notice, Notice::PlayerJoined { .. }));

    assert_eq!(play(&mut m, rid, A, 0), Ok(()));
    let g = m.rooms[&rid].game;
    assert_eq!(g.board[0], Some(Mark::X));
    assert_eq!(g.turn, Mark::O);
    assert_eq!(g.status, Status::Playing);

    assert_eq!(play(&mut m, rid, B, 3), Ok(()));
    assert_eq!(m.rooms[&rid].game.status, Status::Playing);
    assert_eq!(play(&mut m, rid, A, 1), Ok(()));
    assert_eq!(play(&mut m, rid, B, 4), Ok(()));
    let (r, out) = m.player_move(PlayerMove { room_id: rid, user_id: A, position: 2 });
    assert_eq!(r, Ok(()));
    let g = m.rooms[&rid].game;
    assert_eq!(g.status, Status::Won);
    assert_eq!(g.winner, Some(Mark::X));
    let x = Some(Mark::X);
    let o = Some(Mark::O);
    assert_eq!(g.board, [x, x, x, o, o, None, None, None, None]);
    assert_eq!(out.len(), 2);
    assert_eq!(out[0].handle, 1);
    assert_eq!(out[1].handle, 2);
    assert!(matches!(out[0].notice, Notice::PlayerMoved { position: 2, mark: Mark::X, .. }));
    assert_eq!(play(&mut m, rid, B, 5), Err(RoomError::IllegalMove));
}

#[test]
fn dead_connection_empties_room() {
    let mut m = RoomManager::new();
    let mut s = WsClient::new(A, 7, 0);
    let step = s.step_for(&Some(ClientCmd::Join { room_id: None }), None);
    let req = match step {
        Step::Join(j) => j,
        _ => panic!("expected a join"),
    };
    assert_eq!(req.room_id, None);
    let (r, _) = m.join_room(req);
    assert!(s.on_join_reply(Some(r)).is_none());
    let rid = r.unwrap();
    assert_eq!(s.current_room, Some(rid));
    assert_eq!(s.hb(5000), Beat::Ping);
    assert_eq!(s.hb(10000), Beat::Ping);
    assert_eq!(s.hb(10001), Beat::Stop);
    let leave = s.stopping().unwrap();
    assert_eq!(leave.room_id, rid);
    assert_eq!(leave.user_id, A);
    let out = m.leave_room(leave);
    assert!(out.is_empty());
    assert!(!m.rooms.contains_key(&rid));
    assert!(!m.user_room.contains_key(&A));
}

#[test]
fn auto_rooms_hold_two() {
    let mut m = RoomManager::new();
    let r1 = join(&mut m, None, A, 1).unwrap();
    let r2 = join(&mut m, None, B, 2).unwrap();
    assert_ne!(r1, r2);
    assert_eq!(join(&mut m, Some(r1), C, 3), Ok(r1));
    assert_eq!(join(&mut m, Some(r1), 0xd4, 4), Err(RoomError::RoomFull));
    assert_eq!(m.rooms[&r1].players.len(), 2);
    assert_eq!(m.rooms[&r2].players.len(), 1);
    assert!(!m.user_room.contains_key(&0xd4));
}

#[test]
fn id_less_joins_get_new_rooms() {
    let mut m = RoomManager::new();
    let users = [1u128, 2, 3, 4, 5, 6];
    let mut seen = Vec::new();
    for (k, &u) in users.iter().enumerate() {
        let rid = join(&mut m, None, u, k as u64).unwrap();
        assert!(!seen.contains(&rid));
        seen.push(rid);
        assert_eq!(m.rooms[&rid].players, vec![u]);
        assert_eq!(m.user_room[&u], rid);
    }
    assert_eq!(m.rooms.len(), users.len());
}

#[test]
fn unknown_room_is_refused() {
    let mut m = RoomManager::new();
    assert_eq!(join(&mut m, Some(42), A, 1), Err(RoomError::RoomNotFound));
    assert!(m.rooms.is_empty());
    assert!(m.user_room.is_empty());
    assert_eq!(play(&mut m, 42, A, 0), Err(RoomError::RoomNotFound));
}

#[test]
fn fresh_id_is_used_for_new_room() {
    let mut m = RoomManager::new();
    let (r, _) = m.join_room_with(JoinRoom { room_id: None, user_id: A, addr: 1 }, 99);
    assert_eq!(r, Ok(99));
    assert_eq!(m.user_room[&A], 99);
    assert_eq!(m.rooms[&99].id, 99);
}

#[test]
fn rejoin_keeps_room_and_swaps_handle() {
    let (mut m, rid) = pair();
    let (r, out) = m.join_room(JoinRoom { room_id: Some(12345), user_id: B, addr: 20 });
    assert_eq!(r, Ok(rid));
    assert_eq!(m.rooms[&rid].players, vec![A, B]);
    assert_eq!(m.rooms[&rid].addrs, vec![1, 20]);
    assert_eq!(out.len(), 1);
    assert_eq!(out[0].handle, 20);
    match out[0].notice {
        Notice::Rejoined { snapshot, mark } => {
            assert_eq!(mark, Mark::O);
            assert_eq!(snapshot.room_id, rid);
            assert_eq!(snapshot.players, 2);
        }
        _ => panic!("expected a rejoin notice"),
    }
    let (r, _) = m.join_room(JoinRoom { room_id: None, user_id: A, addr: 10 });
    assert_eq!(r, Ok(rid));
    assert_eq!(m.rooms[&rid].addrs, vec![10, 20]);
    assert_eq!(m.rooms.len(), 1);
}

#[test]
fn refused_moves_change_nothing() {
    let (mut m, rid) = pair();
    assert_eq!(play(&mut m, rid, B, 0), Err(RoomError::IllegalMove));
    assert_eq!(play(&mut m, rid, C, 0), Err(RoomError::NotInRoom));
    assert_eq!(play(&mut m, rid, A, 9), Err(RoomError::IllegalMove));
    assert_eq!(play(&mut m, rid, A, 4), Ok(()));
    let before = m.rooms[&rid].game;
    let (r, out) = m.player_move(PlayerMove { room_id: rid, user_id: B, position: 4 });
    assert_eq!(r, Err(RoomError::IllegalMove));
    assert!(out.is_empty());
    let after = m.rooms[&rid].game;
    assert_eq!(after.board, before.board);
    assert_eq!(after.turn, Mark::O);
}

#[test]
fn moves_wait_for_second_player() {
    let mut m = RoomManager::new();
    let rid = join(&mut m, None, A, 1).unwrap();
    assert_eq!(play(&mut m, rid, A, 0), Err(RoomError::IllegalMove));
}

#[test]
fn leave_updates_room_and_index() {
    let (mut m, rid) = pair();
    let out = m.leave_room(LeaveRoom { room_id: rid, user_id: A });
    assert_eq!(out.len(), 1);
    assert_eq!(out[0].handle, 2);
    assert!(matches!(out[0].notice, Notice::PlayerLeft { players: 1, user_id: A, .. }));
    assert_eq!(m.rooms[&rid].players, vec![B]);
    assert_eq!(m.rooms[&rid].addrs, vec![2]);
    assert!(!m.user_room.contains_key(&A));
    assert_eq!(m.rooms[&rid].mark_for(B), Some(Mark::X));
    let out = m.leave_room(LeaveRoom { room_id: 777, user_id: B });
    assert!(out.is_empty());
    assert_eq!(m.user_room[&B], rid);
    m.leave_room(LeaveRoom { room_id: rid, user_id: B });
    assert!(m.rooms.is_empty());
    assert!(m.user_room.is_empty());
}

fn after_moves(moves: &[usize]) -> GameState {
    let mut g = GameState::new(Status::Playing);
    for &c in moves {
        let t = g.turn;
        assert_eq!(g.apply_move(c, t), Ok(()));
    }
    g
}

#[test]
fn every_line_wins() {
    let lines = [[0, 1, 2], [3, 4, 5], [6, 7, 8], [0, 3, 6], [1, 4, 7], [2, 5, 8], [0, 4, 8], [2, 4, 6]];
    for line in lines.iter() {
        let others: Vec<usize> = (0..9).filter(|c| !line.contains(c)).collect();
        let mut g = GameState::new(Status::Playing);
        for k in 0..3 {
            assert_eq!(g.apply_move(line[k], Mark::X), Ok(()));
            if k < 2 {
                assert_eq!(g.status, Status::Playing);
                let o = others.iter().copied().find(|&c| {
                    let mut h = g;
                    h.apply_move(c, Mark::O).is_ok() && h.status == Status::Playing
                });
                assert_eq!(g.apply_move(o.unwrap(), Mark::O), Ok(()));
            }
        }
        assert_eq!(g.status, Status::Won);
        assert_eq!(g.winner, Some(Mark::X));
    }
}

#[test]
fn full_board_without_line_draws() {
    let g = after_moves(&[0, 1, 2, 4, 3, 5, 7, 6, 8]);
    assert_eq!(g.status, Status::Draw);
    assert_eq!(g.winner, None);
    assert!(g.board.iter().all(|c| c.is_some()));
}

#[test]
fn move_changes_one_cell_and_flips_turn() {
    let mut g = after_moves(&[4]);
    let before = g.board;
    assert_eq!(g.apply_move(0, Mark::O), Ok(()));
    let changed: Vec<usize> = (0..9).filter(|&i| g.board[i] != before[i]).collect();
    assert_eq!(changed, vec![0]);
    assert_eq!(g.turn, Mark::X);
    let before = g;
    assert!(g.apply_move(0, Mark::X).is_err());
    assert!(g.apply_move(1, Mark::O).is_err());
    assert_eq!(g.board, before.board);
    assert_eq!(g.turn, before.turn);
}

#[test]
fn finished_game_refuses_moves() {
    let mut g = after_moves(&[0, 3, 1, 4, 2]);
    assert_eq!(g.status, Status::Won);
    assert!(g.apply_move(5, Mark::O).is_err());
    assert_eq!(g.board[5], None);
}

#[test]
fn room_marks_and_start() {
    let mut room = Room::new(5);
    assert!(!room.is_full());
    room.players.push(A);
    room.addrs.push(1);
    room.start_game_if_ready();
    assert_eq!(room.game.status, Status::Waiting);
    room.players.push(B);
    room.addrs.push(2);
    room.start_game_if_ready();
    assert!(room.is_full());
    assert_eq!(room.game.status, Status::Playing);
    room.game.apply_move(0, Mark::X).unwrap();
    room.start_game_if_ready();
    assert_eq!(room.game.board[0], Some(Mark::X));
    assert_eq!(room.mark_for(C), None);
}

#[test]
fn commands_become_requests() {
    let mut s = WsClient::new(A, 3, 0);
    assert!(matches!(s.started(), Notice::Connected { user_id: A }));
    let text = "67e55044-10b1-426f-9247-bb680e5fe0c8".to_string();
    let id = 0x67e5504410b1426f9247bb680e5fe0c8u128;
    let step = s.on_command(&Some(ClientCmd::Move { room_id: text.clone(), position: 4 }));
    match step {
        Step::Move(mv) => {
            assert_eq!(mv.room_id, id);
            assert_eq!(mv.position, 4);
            assert_eq!(mv.user_id, A);
        }
        _ => panic!("expected a move"),
    }
    let step = s.on_command(&Some(ClientCmd::Join { room_id: Some(text.clone()) }));
    assert!(matches!(step, Step::Join(JoinRoom { room_id: Some(r), user_id: A, addr: 3 }) if r == id));
    let step = s.on_command(&Some(ClientCmd::Join { room_id: Some("nope".to_string()) }));
    assert!(matches!(step, Step::Reply(Notice::Error { failure: Failure::InvalidRoomId })));
    let step = s.on_command(&Some(ClientCmd::Join { room_id: None }));
    assert!(matches!(step, Step::Join(JoinRoom { room_id: None, user_id: A, addr: 3 })));
    let braced = format!("{{{}}}", text);
    let step = s.on_command(&Some(ClientCmd::Leave { room_id: braced }));
    assert!(matches!(step, Step::Leave(LeaveRoom { room_id: r, .. }, _) if r == id));
    let step = s.on_command(&Some(ClientCmd::Move { room_id: "nope".to_string(), position: 1 }));
    assert!(matches!(step, Step::Reply(Notice::Error { failure: Failure::InvalidRoomId })));
    let step = s.on_command(&None);
    assert!(matches!(step, Step::Reply(Notice::Error { failure: Failure::MalformedCommand })));
    s.on_join_reply(Some(Ok(id)));
    let step = s.on_command(&Some(ClientCmd::Leave { room_id: text }));
    assert!(matches!(step, Step::Leave(LeaveRoom { room_id: r, user_id: A }, Notice::Left { .. }) if r == id));
    assert_eq!(s.current_room, None);
    assert_eq!(s.stopping().map(|l| l.room_id), None);
}

#[test]
fn replies_become_notices() {
    let mut s = WsClient::new(A, 3, 0);
    assert!(matches!(
        s.on_join_reply(Some(Err(RoomError::RoomFull))),
        Some(Notice::Error { failure: Failure::Room(RoomError::RoomFull) })
    ));
    assert!(matches!(s.on_join_reply(None), Some(Notice::Error { failure: Failure::Internal })));
    assert_eq!(s.current_room, None);
    assert!(s.on_move_reply(Some(Ok(()))).is_none());
    assert!(s.on_move_reply(None).is_none());
    assert!(matches!(
        s.on_move_reply(Some(Err(RoomError::NotInRoom))),
        Some(Notice::Error { failure: Failure::Room(RoomError::NotInRoom) })
    ));
    assert_eq!(s.on_signal(Signal::Pong, 9000), Reaction::Nothing);
    assert_eq!(s.hb(18000), Beat::Ping);
    assert_eq!(s.hb(19001), Beat::Stop);
}

#[test]
fn claims_carry_subject_and_expiry() {
    let c = Claims::new("alice".to_string());
    assert_eq!(c.sub, "alice");
    assert_eq!(c.exp, 1000000000000);
    let c = Claims::with_expiry("bob".to_string(), 3600);
    assert_eq!(c.sub, "bob");
    assert_eq!(c.exp, 3600);
}

#[test]
fn signals_and_waiting_commands() {
    let mut s = WsClient::new(A, 3, 0);
    assert_eq!(s.on_signal(Signal::Ping, 700), Reaction::Pong);
    assert_eq!(s.hb, 700);
    assert_eq!(s.on_signal(Signal::Other, 900), Reaction::Nothing);
    assert_eq!(s.hb, 700);
    assert_eq!(s.on_signal(Signal::Close, 900), Reaction::Stop);
    assert_eq!(s.on_signal(Signal::Broken, 900), Reaction::Stop);
    assert!(s.ready());
    let step = s.on_command(&Some(ClientCmd::Join { room_id: None }));
    assert!(matches!(step, Step::Join(_)));
    assert!(!s.ready());
    s.on_join_reply(Some(Err(RoomError::RoomFull)));
    assert!(s.ready());
    let step = s.on_command(&Some(ClientCmd::Move { room_id: "x".to_string(), position: 0 }));
    assert!(matches!(step, Step::Reply(_)));
    assert!(s.ready());
    let id = 0x67e5504410b1426f9247bb680e5fe0c8u128;
    let text = "urn:uuid:67e55044-10b1-426f-9247-bb680e5fe0c8".to_string();
    let step = s.on_command(&Some(ClientCmd::Move { room_id: text, position: 2 }));
    assert!(matches!(step, Step::Move(PlayerMove { room_id: r, position: 2, .. }) if r == id));
    assert!(!s.ready());
    s.on_move_reply(Some(Ok(())));
    assert!(s.ready());
}

#[test]
fn empty_registry_join_creates_room() {
    let mut m = RoomManager::new();
    let (r, out) = m.join_room(JoinRoom { room_id: None, user_id: A, addr: 1 });
    let rid = r.unwrap();
    assert_eq!(m.rooms.len(), 1);
    assert_eq!(m.rooms[&rid].players, vec![A]);
    assert_eq!(out.len(), 1);
}
