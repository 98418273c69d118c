use chess_server::envelope::ServerPacket;
use chess_server::game::{Game, GameStatus, JoinError};
use chess_server::opcode::{ErrorCode, Opcode};
use chess_server::packet::Packet;
use chess_server::server::{Dispatch, Server};

const START: &str = "rnbqkbnr/pppppppp/8/8/8/8/PPPPPPPP/RNBQKBNR w KQkq - 0 1";

fn msg(op: Opcode, payload: &[u8], user: &str, id: i32) -> ServerPacket {
    ServerPacket::new(
        Packet::new(op, payload.to_vec()),
        "127.0.0.1:5000".to_string(),
        id,
        user.to_string(),
    )
}

fn deliveries(d: Dispatch) -> Vec<(i32, Opcode, Vec<u8>)> {
    match d {
        Dispatch::Deliver(v) => v.into_iter().map(|d| (d.conn, d.packet.op, d.packet.payload)).collect(),
        Dispatch::KeepAlive(_) => panic!("expected deliveries"),
    }
}

fn is_error(p: &(i32, Opcode, Vec<u8>), code: ErrorCode) -> bool {
    p.1 == Opcode::Error && p.2 == vec![code.to_byte()]
}

#[test]
fn create_then_join_shares_starting_position() {
    let mut s = Server::new();
    let r = deliveries(s.process_packet(&msg(Opcode::CreateGame, b"", "alice", 1)));
    assert_eq!(r.len(), 1);
    assert_eq!(r[0].0, 1);
    assert_eq!(r[0].1, Opcode::CreateGameResp);
    assert_eq!(r[0].2, START.as_bytes().to_vec());
    let r = deliveries(s.process_packet(&msg(Opcode::JoinGame, &0u32.to_be_bytes(), "bob", 2)));
    assert_eq!(r, vec![(2, Opcode::JoinGameResp, START.as_bytes().to_vec())]);
    assert_eq!(s.games[0].status(), GameStatus::Ongoing);
}

#[test]
fn move_is_confirmed_and_pushed_to_opponent() {
    let mut s = Server::new();
    s.process_packet(&msg(Opcode::CreateGame, b"", "alice", 1));
    s.process_packet(&msg(Opcode::JoinGame, &0u32.to_be_bytes(), "bob", 2));
    let r = deliveries(s.process_packet(&msg(Opcode::SendMove, b"e4", "alice", 1)));
    assert_eq!(r.len(), 2);
    assert_eq!(r[0].0, 1);
    assert_eq!(r[0].1, Opcode::SendMoveResp);
    assert_eq!(r[1].0, 2);
    assert_eq!(r[1].1, Opcode::RecvMove);
    assert_eq!(r[0].2, r[1].2);
    assert_ne!(r[0].2, START.as_bytes().to_vec());
    assert!(String::from_utf8(r[0].2.clone()).unwrap().starts_with("rnbqkbnr/pppppppp/8/8/4P3/8/PPPP1PPP/RNBQKBNR b"));
    assert_eq!(s.games[0].fen().as_bytes(), &r[0].2[..]);
}

#[test]
fn illegal_move_changes_nothing() {
    let mut s = Server::new();
    s.process_packet(&msg(Opcode::CreateGame, b"", "alice", 1));
    s.process_packet(&msg(Opcode::JoinGame, &0u32.to_be_bytes(), "bob", 2));
    let r = deliveries(s.process_packet(&msg(Opcode::SendMove, b"e5", "alice", 1)));
    assert_eq!(r.len(), 1);
    assert!(is_error(&r[0], ErrorCode::IllegalMove));
    let r = deliveries(s.process_packet(&msg(Opcode::SendMove, b"e4", "bob", 2)));
    assert!(is_error(&r[0], ErrorCode::IllegalMove));
    let r = deliveries(s.process_packet(&msg(Opcode::SendMove, &[0xff, 0xfe], "alice", 1)));
    assert!(is_error(&r[0], ErrorCode::IllegalMove));
    assert_eq!(s.games[0].fen(), START);
}

#[test]
fn black_replies_after_white() {
    let mut s = Server::new();
    s.process_packet(&msg(Opcode::CreateGame, b"", "alice", 1));
    s.process_packet(&msg(Opcode::JoinGame, &0u32.to_be_bytes(), "bob", 2));
    s.process_packet(&msg(Opcode::SendMove, b"e4", "alice", 1));
    let r = deliveries(s.process_packet(&msg(Opcode::SendMove, b"e5", "bob", 2)));
    assert_eq!(r.len(), 2);
    assert_eq!((r[0].0, r[0].1), (2, Opcode::SendMoveResp));
    assert_eq!((r[1].0, r[1].1), (1, Opcode::RecvMove));
    assert_eq!(r[0].2, r[1].2);
}

#[test]
fn join_missing_game() {
    let mut s = Server::new();
    let r = deliveries(s.process_packet(&msg(Opcode::JoinGame, &999u32.to_be_bytes(), "alice", 1)));
    assert!(is_error(&r[0], ErrorCode::GameDoesntExist));
    assert!(s.games.is_empty());
    assert!(s.game_users.is_empty());
}

#[test]
fn join_malformed_id() {
    let mut s = Server::new();
    s.process_packet(&msg(Opcode::CreateGame, b"", "alice", 1));
    let r = deliveries(s.process_packet(&msg(Opcode::JoinGame, &[0, 0, 0], "bob", 2)));
    assert!(is_error(&r[0], ErrorCode::MalformedPacket));
}

#[test]
fn third_player_is_refused() {
    let mut s = Server::new();
    s.process_packet(&msg(Opcode::CreateGame, b"", "alice", 1));
    s.process_packet(&msg(Opcode::JoinGame, &0u32.to_be_bytes(), "bob", 2));
    let r = deliveries(s.process_packet(&msg(Opcode::JoinGame, &0u32.to_be_bytes(), "carol", 3)));
    assert!(is_error(&r[0], ErrorCode::GameLimit));
    assert_eq!(s.game_users.len(), 2);
}

#[test]
fn one_game_per_user() {
    let mut s = Server::new();
    s.process_packet(&msg(Opcode::CreateGame, b"", "alice", 1));
    let r = deliveries(s.process_packet(&msg(Opcode::CreateGame, b"", "alice", 1)));
    assert!(is_error(&r[0], ErrorCode::AlreadyInGame));
    s.process_packet(&msg(Opcode::CreateGame, b"", "bob", 2));
    let r = deliveries(s.process_packet(&msg(Opcode::JoinGame, &1u32.to_be_bytes(), "alice", 1)));
    assert!(is_error(&r[0], ErrorCode::AlreadyInGame));
    assert_eq!(s.games.len(), 2);
}

#[test]
fn list_games_empty_and_full() {
    let mut s = Server::new();
    let r = deliveries(s.process_packet(&msg(Opcode::ListGames, b"", "alice", 1)));
    assert_eq!(r[0].1, Opcode::ListGamesResp);
    assert_eq!(r[0].2, b"No games currently.".to_vec());
    s.process_packet(&msg(Opcode::CreateGame, b"", "alice", 1));
    s.process_packet(&msg(Opcode::CreateGame, b"", "bob", 2));
    s.process_packet(&msg(Opcode::JoinGame, &1u32.to_be_bytes(), "carol", 3));
    let r = deliveries(s.process_packet(&msg(Opcode::ListGames, b"", "alice", 1)));
    assert_eq!(String::from_utf8(r[0].2.clone()).unwrap(), "Games:\n0: open\n1: closed\n");
}

#[test]
fn show_and_leave() {
    let mut s = Server::new();
    let r = deliveries(s.process_packet(&msg(Opcode::ShowGame, b"", "alice", 1)));
    assert!(is_error(&r[0], ErrorCode::GameDoesntExist));
    for i in 0..12 {
        s.process_packet(&msg(Opcode::CreateGame, b"", &format!("p{}", i), 10 + i));
    }
    let r = deliveries(s.process_packet(&msg(Opcode::ShowGame, b"", "p11", 21)));
    assert_eq!(r[0], (21, Opcode::ShowGameResp, START.as_bytes().to_vec()));
    let r = deliveries(s.process_packet(&msg(Opcode::LeaveGame, b"", "p11", 21)));
    assert_eq!(r[0], (21, Opcode::LeaveGameResp, b"11".to_vec()));
    let r = deliveries(s.process_packet(&msg(Opcode::LeaveGame, b"", "p11", 21)));
    assert!(is_error(&r[0], ErrorCode::GameDoesntExist));
    assert_eq!(s.games.len(), 12);
    let r = deliveries(s.process_packet(&msg(Opcode::CreateGame, b"", "p11", 21)));
    assert_eq!(r[0].1, Opcode::CreateGameResp);
}

#[test]
fn keepalive_join_and_unknown_ops() {
    let mut s = Server::new();
    match s.process_packet(&msg(Opcode::KeepAlive, b"", "alice", 7)) {
        Dispatch::KeepAlive(id) => assert_eq!(id, 7),
        Dispatch::Deliver(_) => panic!("keepalive answered"),
    }
    assert!(deliveries(s.process_packet(&msg(Opcode::Join, b"alice", "alice", 7))).is_empty());
    let r = deliveries(s.process_packet(&msg(Opcode::Other(77), b"", "alice", 7)));
    assert!(is_error(&r[0], ErrorCode::IllegalOpcode));
    let r = deliveries(s.process_packet(&msg(Opcode::CreateGameResp, b"", "alice", 7)));
    assert!(is_error(&r[0], ErrorCode::IllegalOpcode));
}

#[test]
fn get_game_id_is_big_endian() {
    let s = Server::new();
    let p = Packet::new(Opcode::JoinGame, vec![1, 2, 3, 4]);
    assert_eq!(s.get_game_id(&p), Ok(0x01020304));
    let q = Packet::new(Opcode::JoinGame, vec![1, 2]);
    assert_eq!(s.get_game_id(&q), Err(ErrorCode::MalformedPacket));
}

#[test]
fn game_seats() {
    let mut g = Game::new("alice".to_string(), 1, false);
    assert!(g.white.is_none());
    assert_eq!(g.status(), GameStatus::Open);
    assert!(g.is_white_turn());
    assert!(g.send(true, Packet::error(ErrorCode::IllegalMove)).is_none());
    assert_eq!(g.send(false, Packet::error(ErrorCode::IllegalMove)).unwrap().conn, 1);
    assert_eq!(g.join("bob".to_string(), 2), Ok(()));
    assert_eq!(g.white.as_deref(), Some("bob"));
    assert_eq!(g.join("carol".to_string(), 3), Err(JoinError::GameFull));
    assert_eq!(g.make_move("Nf3").unwrap(), g.fen());
    assert!(!g.is_white_turn());
}

#[test]
fn long_listing_is_split_at_line_ends() {
    let mut s = Server::new();
    for i in 0..40 {
        s.process_packet(&msg(Opcode::CreateGame, b"", &format!("u{}", i), i));
    }
    let r = deliveries(s.process_packet(&msg(Opcode::ListGames, b"", "u0", 0)));
    assert!(r.len() >= 2);
    let mut all: Vec<u8> = Vec::new();
    for d in &r {
        assert_eq!(d.0, 0);
        assert_eq!(d.1, Opcode::ListGamesResp);
        assert!(d.2.len() <= 255);
        assert_eq!(*d.2.last().unwrap(), b'\n');
        all.extend_from_slice(&d.2);
    }
    let mut expected = "Games:\n".to_string();
    for i in 0..40 {
        expected.push_str(&format!("{}: open\n", i));
    }
    assert_eq!(String::from_utf8(all).unwrap(), expected);
}

#[test]
fn join_empty_game_is_refused() {
    let mut g = Game::new("alice".to_string(), 1, true);
    g.white = None;
    g.white_conn = None;
    assert_eq!(g.join("bob".to_string(), 2), Err(JoinError::EmptySession));
    assert!(g.white.is_none() && g.black.is_none());
}
