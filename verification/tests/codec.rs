use peerwire::{Error, Message};

fn round_trip(m: Message) {
    let frame = m.serialize();
    let back = Message::decode(frame.as_slice()).unwrap();
    assert_eq!(m, back);
}

#[test]
fn round_trip_every_variant() {
    round_trip(Message::Choke);
    round_trip(Message::Unchoke);
    round_trip(Message::Interested);
    round_trip(Message::NotInterested);
    round_trip(Message::Have(0x01020304));
    round_trip(Message::Bitfield(vec![]));
    round_trip(Message::Bitfield(vec![0xaa, 0x55, 0x01]));
    round_trip(Message::Request(7, 16384, 16384));
    round_trip(Message::Piece(3, 0, vec![]));
    round_trip(Message::Piece(3, 16384, vec![1, 2, 3, 4, 5]));
    round_trip(Message::Cancel);
}

#[test]
fn zero_length_frame_is_keep_alive() {
    assert_eq!(Message::decode(&[0, 0, 0, 0]).unwrap(), Message::KeepAlive);
    assert_eq!(Message::KeepAlive.serialize(), vec![0, 0, 0, 0]);
}

#[test]
fn have_frame_layout() {
    let frame = Message::Have(0x01020304).serialize();
    assert_eq!(frame, vec![0, 0, 0, 5, 4, 1, 2, 3, 4]);
}

#[test]
fn request_frame_layout() {
    let frame = Message::Request(1, 16384, 16384).serialize();
    assert_eq!(
        frame,
        vec![0, 0, 0, 13, 6, 0, 0, 0, 1, 0, 0, 0x40, 0, 0, 0, 0x40, 0]
    );
}

#[test]
fn piece_frame_layout() {
    let frame = Message::Piece(2, 8, vec![0xde, 0xad]).serialize();
    assert_eq!(
        frame,
        vec![0, 0, 0, 11, 7, 0, 0, 0, 2, 0, 0, 0, 8, 0xde, 0xad]
    );
}

#[test]
fn unknown_id_is_protocol_violation() {
    assert_eq!(Message::new(9, &[]), Err(Error::ProtocolViolation));
    assert_eq!(Message::new(255, &[1, 2, 3]), Err(Error::ProtocolViolation));
    // a whole frame carrying the unknown id fails the same way
    assert_eq!(
        Message::decode(&[0, 0, 0, 1, 9]),
        Err(Error::ProtocolViolation)
    );
}

#[test]
fn truncated_fixed_payloads_are_rejected() {
    assert_eq!(Message::new(4, &[0, 0, 0]), Err(Error::ProtocolViolation));
    assert_eq!(
        Message::new(6, &[0, 0, 0, 0, 0, 0, 0, 0]),
        Err(Error::ProtocolViolation)
    );
    assert_eq!(
        Message::new(7, &[0, 0, 0, 0, 0, 0, 0]),
        Err(Error::ProtocolViolation)
    );
}

#[test]
fn frame_length_must_match_prefix() {
    // prefix says 2 bytes follow, but 1 does
    assert_eq!(
        Message::decode(&[0, 0, 0, 2, 1]),
        Err(Error::ProtocolViolation)
    );
    // shorter than the prefix itself
    assert_eq!(Message::decode(&[0, 0]), Err(Error::ProtocolViolation));
}
