use peerwire::handshake::Handshake;
use peerwire::Error;

fn sample_hash() -> Vec<u8> {
    (0u8..20).collect()
}

fn sample_id() -> Vec<u8> {
    (100u8..120).collect()
}

#[test]
fn handshake_byte_layout() {
    let hs = Handshake::new(sample_hash(), sample_id());
    let bytes = hs.as_bytes();
    assert_eq!(bytes.len(), 68);
    assert_eq!(bytes[0], 19);
    assert_eq!(&bytes[1..20], b"BitTorrent protocol");
    assert_eq!(&bytes[20..28], &[0u8; 8]);
    assert_eq!(&bytes[28..48], sample_hash().as_slice());
    assert_eq!(&bytes[48..68], sample_id().as_slice());
}

#[test]
fn handshake_round_trip() {
    let hs = Handshake::new(sample_hash(), sample_id());
    let bytes = hs.as_bytes();
    let back = Handshake::from_bytes(bytes.as_slice()).unwrap();
    assert_eq!(back.pstr, b"BitTorrent protocol".to_vec());
    assert_eq!(back.info_hash, sample_hash());
    assert_eq!(back.peer_id, sample_id());
}

#[test]
fn bad_protocol_length_byte_is_violation() {
    let hs = Handshake::new(sample_hash(), sample_id());
    let mut bytes = hs.as_bytes();
    bytes[0] = 18;
    assert_eq!(
        Handshake::from_bytes(bytes.as_slice()),
        Err(Error::ProtocolViolation)
    );
}

#[test]
fn wrong_info_hash_is_handshake_mismatch() {
    let hs = Handshake::new(sample_hash(), sample_id());
    assert_eq!(hs.check_reply(&sample_hash()), Ok(()));
    let mut other = sample_hash();
    other[0] ^= 1;
    assert_eq!(hs.check_reply(&other), Err(Error::HandshakeMismatch));
}
