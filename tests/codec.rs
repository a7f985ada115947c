use j1939_gateway::frame::{Duplicate, Frame};
use j1939_gateway::rp1210::{
    classify_read, connect_commands, decode_rp1210, encode_rp1210, verify_return, ReadOutcome,
};
use j1939_gateway::descriptor::{channel_connection_string, hex8, HexError};

#[test]
fn identifier_fields_of_a_broadcast_frame() {
    let f = Frame::new(1, 0x18FEF100, vec![1, 2], 0);
    assert_eq!(f.priority(), 6);
    assert_eq!(f.pgn(), 0xFEF1);
    assert_eq!(f.source_address(), 0x00);
    assert_eq!(f.destination_address(), 0xFF);
    assert_eq!(f.data(), &vec![1u8, 2]);
}

#[test]
fn identifier_fields_of_a_peer_to_peer_frame() {
    let f = Frame::new(0, 0x18EA21F9, vec![], 0);
    assert_eq!(f.pgn(), 0xEA00);
    assert_eq!(f.destination_address(), 0x21);
    assert_eq!(f.source_address(), 0xF9);
}

#[test]
fn outbound_identifier() {
    assert_eq!(Frame::outbound(0, 6, 0xFEF1, 0x21, 0x80, vec![]).id, 0x18FEF180);
    assert_eq!(Frame::outbound(0, 6, 0xEA00, 0x21, 0xF9, vec![]).id, 0x18EA21F9);
    assert_eq!(Frame::outbound(0, 3, 0xEAFF, 0x00, 0xF9, vec![]).id, 0x0CEA00F9);
}

#[test]
fn duplicate_keeps_every_field() {
    let f = Frame::new(2, 0x18EAFFF9, vec![5, 6, 7], 42);
    let g = f.duplicate();
    assert_eq!((g.channel, g.id, g.payload.clone(), g.timestamp), (2, 0x18EAFFF9, vec![5, 6, 7], 42));
}

#[test]
fn decode_broadcast_message() {
    let buf = [0u8, 0, 0, 10, 1, 0xF1, 0xFE, 0x00, 6, 0x00, 0xFF, 1, 2, 3];
    let f = decode_rp1210(2, &buf, 1_000_000).unwrap();
    assert_eq!(f.channel, 2);
    assert_eq!(f.id, 0x18FEF100);
    assert_eq!(f.payload, vec![1, 2, 3]);
    assert_eq!(f.timestamp, 10_000);
}

#[test]
fn decode_peer_to_peer_message() {
    let buf = [0x01u8, 0x02, 0x03, 0x04, 0, 0x00, 0xEA, 0x00, 6, 0xF9, 0x21, 0xEC];
    let f = decode_rp1210(0, &buf, 1000).unwrap();
    assert_eq!(f.id, 0x18EA21F9);
    assert_eq!(f.payload, vec![0xEC]);
    assert_eq!(f.timestamp, 0x01020304);
}

#[test]
fn decode_short_message() {
    assert!(decode_rp1210(0, &[0u8; 10], 1).is_none());
    assert_eq!(decode_rp1210(0, &[0u8; 11], 1).unwrap().payload, Vec::<u8>::new());
}

#[test]
fn encode_message() {
    let f = Frame::new(0, 0x18EAFFF9, vec![0xEC, 0xFE, 0x00], 0);
    assert_eq!(encode_rp1210(&f), vec![0x00, 0xEA, 0x00, 6, 0xF9, 0xFF, 0xEC, 0xFE, 0x00]);
}

#[test]
fn return_codes() {
    assert_eq!(verify_return(0), Ok(0));
    assert_eq!(verify_return(127), Ok(127));
    assert_eq!(verify_return(128), Err(128));
    assert_eq!(verify_return(-1), Err(-1));
}

#[test]
fn read_sizes() {
    assert_eq!(classify_read(14), ReadOutcome::Data(14));
    assert_eq!(classify_read(0), ReadOutcome::Empty);
    assert_eq!(classify_read(-141), ReadOutcome::Error(141));
    assert_eq!(classify_read(i16::MIN), ReadOutcome::Error(32768));
}

#[test]
fn commands_after_connect() {
    let c = connect_commands(0xF9, false);
    assert_eq!(c.len(), 3);
    assert_eq!(c[0], (19, vec![0xF9, 0, 0, 0xE0, 0xFF, 0, 0x81, 0, 0, 0]));
    assert_eq!(c[1], (16, vec![1]));
    assert_eq!(c[2], (3, vec![]));
    let d = connect_commands(0xF9, true);
    assert_eq!(d, vec![(16, vec![1]), (3, vec![])]);
}

#[test]
fn hex_addresses() {
    assert_eq!(hex8("F9"), Ok(0xF9));
    assert_eq!(hex8("f9"), Ok(0xF9));
    assert_eq!(hex8("+0a"), Ok(10));
    assert_eq!(hex8("00FF"), Ok(255));
    assert_eq!(hex8(""), Err(HexError::Empty));
    assert_eq!(hex8("+"), Err(HexError::InvalidDigit));
    assert_eq!(hex8("-1"), Err(HexError::InvalidDigit));
    assert_eq!(hex8("1G"), Err(HexError::InvalidDigit));
    assert_eq!(hex8("FFG"), Err(HexError::InvalidDigit));
    assert_eq!(hex8("100"), Err(HexError::Overflow));
}

#[test]
fn decode_fractional_weight() {
    let buf = [0u8, 0, 0, 10, 1, 0xF1, 0xFE, 0x00, 6, 0x00, 0xFF];
    assert_eq!(decode_rp1210(0, &buf, 1500).unwrap().timestamp, 15);
    assert_eq!(decode_rp1210(0, &buf, 250).unwrap().timestamp, 2);
}

#[test]
fn connection_string_with_channel() {
    assert_eq!(channel_connection_string("J1939:Baud=Auto", None), "J1939:Baud=Auto");
    assert_eq!(channel_connection_string("J1939:Baud=Auto", Some(0)), "J1939:Baud=Auto;Channel=0");
    assert_eq!(channel_connection_string("J1939", Some(2)), "J1939;Channel=2");
    assert_eq!(channel_connection_string("J1939", Some(42)), "J1939;Channel=42");
    assert_eq!(channel_connection_string("J1939", Some(255)), "J1939;Channel=255");
    assert_eq!(channel_connection_string("", Some(107)), ";Channel=107");
}
