use chess_server::opcode::{ErrorCode, Opcode};
use chess_server::packet::{Packet, ProtocolError};

#[test]
fn round_trip_every_opcode_and_length() {
    for b in 0u8..=255 {
        let op = Opcode::from_byte(b);
        assert_eq!(op.to_byte(), b);
        for len in [0usize, 1, 4, 100, 255] {
            let payload: Vec<u8> = (0..len).map(|i| (i * 7 % 256) as u8).collect();
            let p = Packet::new(op, payload.clone());
            let bytes = p.encode();
            assert_eq!(bytes.len(), 2 + len);
            let back = Packet::decode(&bytes).unwrap();
            assert_eq!(back.op, op);
            assert_eq!(back.payload, payload);
        }
    }
}

#[test]
fn encode_layout() {
    let p = Packet::new(Opcode::SendMove, b"e4".to_vec());
    assert_eq!(p.encode(), vec![9, 2, b'e', b'4']);
}

#[test]
fn decode_short_reads() {
    assert_eq!(Packet::decode(&[]).unwrap_err(), ProtocolError::Incomplete(2));
    assert_eq!(Packet::decode(&[1]).unwrap_err(), ProtocolError::Incomplete(2));
    assert_eq!(Packet::decode(&[9, 3, b'e']).unwrap_err(), ProtocolError::Incomplete(5));
}

#[test]
fn decode_leaves_trailing_bytes() {
    let p = Packet::decode(&[3, 0, 9, 9]).unwrap();
    assert_eq!(p.op, Opcode::ListGames);
    assert!(p.payload.is_empty());
}

#[test]
fn unknown_opcode_decodes_as_other() {
    let p = Packet::decode(&[200, 1, 7]).unwrap();
    assert_eq!(p.op, Opcode::Other(200));
    assert_eq!(p.payload, vec![7]);
}

#[test]
fn error_packet_carries_code() {
    let p = Packet::error(ErrorCode::GameLimit);
    assert_eq!(p.op, Opcode::Error);
    assert_eq!(p.payload, vec![5]);
    assert_eq!(ErrorCode::from_byte(5), Some(ErrorCode::GameLimit));
    assert_eq!(ErrorCode::from_byte(6), None);
}

#[test]
fn text_is_cut_to_one_frame() {
    let long = vec![b'x'; 300];
    let p = Packet::text(Opcode::ListGamesResp, &long);
    assert_eq!(p.payload.len(), 255);
    let short = Packet::text(Opcode::ListGamesResp, b"abc");
    assert_eq!(short.payload, b"abc".to_vec());
}
