use chess_server::envelope::ServerPacket;
use chess_server::server::{Dispatch, Server};
use chess_server::connection::{ConnAction, ConnEvent, ConnState, Connection, HandshakeError};
use chess_server::liveness::LivenessTable;
use chess_server::opcode::Opcode;
use chess_server::packet::{Packet, ProtocolError};

#[test]
fn silent_connection_is_evicted() {
    let mut t = LivenessTable::new();
    assert_eq!(t.register(0), Some(0));
    assert_eq!(t.register(5_000), Some(1));
    assert!(t.sweep(20_000).is_empty());
    assert_eq!(t.sweep(20_001), vec![0]);
    assert!(!t.contains(0));
    assert!(t.contains(1));
    assert_eq!(t.sweep(25_001), vec![1]);
    assert!(t.sweep(100_000).is_empty());
}

#[test]
fn keepalive_keeps_connection() {
    let mut t = LivenessTable::new();
    t.register(0);
    let mut now = 0u64;
    for _ in 0..10 {
        now += 19_000;
        t.touch(0, now);
        assert!(t.sweep(now + 19_999).is_empty());
    }
    assert!(t.contains(0));
    t.remove(0);
    t.touch(0, now);
    assert!(!t.contains(0));
}

#[test]
fn handshake() {
    let join = Packet::new(Opcode::Join, b"alice".to_vec());
    assert_eq!(Connection::join(Ok(join)).unwrap(), "alice");
    let other = Packet::new(Opcode::CreateGame, vec![]);
    assert_eq!(Connection::join(Ok(other)), Err(HandshakeError::InvalidJoin));
    assert_eq!(Connection::join(Err(ProtocolError::Incomplete(2))), Err(HandshakeError::NoJoin));
    let accented = Packet::new(Opcode::Join, "héllo".as_bytes().to_vec());
    assert_eq!(Connection::join(Ok(accented)).unwrap(), "héllo");
    let broken = Packet::new(Opcode::Join, vec![0xc3]);
    assert_eq!(Connection::join(Ok(broken)), Err(HandshakeError::InvalidJoin));
}

#[test]
fn connection_states() {
    let mut c = Connection::new(4, "10.0.0.1:9".to_string());
    let a = c.step(ConnEvent::Received(Packet::new(Opcode::Join, b"bob".to_vec())));
    assert!(matches!(a, ConnAction::Nothing));
    assert!(matches!(&c.state, ConnState::Active(u) if u == "bob"));
    match c.step(ConnEvent::Received(Packet::new(Opcode::ListGames, vec![]))) {
        ConnAction::Forward(sp) => {
            assert_eq!(sp.id(), 4);
            assert_eq!(sp.user(), "bob");
            assert_eq!(sp.addr(), "10.0.0.1:9");
            assert_eq!(sp.pkt().op, Opcode::ListGames);
        }
        _ => panic!("not forwarded"),
    }
    assert!(matches!(c.step(ConnEvent::Killed), ConnAction::Close));
    assert!(matches!(c.state, ConnState::Terminated));
    assert!(matches!(c.step(ConnEvent::ReadFailed), ConnAction::Nothing));
    let mut d = Connection::new(5, "x".to_string());
    assert!(matches!(d.step(ConnEvent::Received(Packet::new(Opcode::ListGames, vec![]))), ConnAction::Close));
}

// A closed or evicted connection leaves the liveness table only: its user
// keeps the seat and the index entry until a `LeaveGame`.
#[test]
fn disconnect_keeps_registry_entry() {
    let mut s = Server::new();
    let mut t = LivenessTable::new();
    let id = t.register(0).unwrap();
    let create = ServerPacket::new(Packet::new(Opcode::CreateGame, vec![]), "a".to_string(), id, "alice".to_string());
    s.process_packet(&create);
    t.remove(id);
    assert!(!t.contains(id));
    let again = ServerPacket::new(Packet::new(Opcode::CreateGame, vec![]), "a".to_string(), 9, "alice".to_string());
    match s.process_packet(&again) {
        Dispatch::Deliver(d) => assert_eq!(d[0].packet.op, Opcode::Error),
        Dispatch::KeepAlive(_) => panic!("unexpected keepalive"),
    }
}
