use peerwire::peer::Peer;
use peerwire::torrent::{piece_hashes_from_bytes, TorrentFile};
use peerwire::tracker::{build_tracker_query, fresh_peer_id, percent_encode_all};
use peerwire::Error;

#[test]
fn compact_peer_list_decodes() {
    let bytes: Vec<u8> = vec![192, 168, 1, 2, 0x1a, 0xe1, 10, 0, 0, 1, 0, 80];
    let peers = Peer::vec_from_bytes(bytes.as_slice()).unwrap();
    assert_eq!(peers.len(), 2);
    assert_eq!(peers[0].ip, [192, 168, 1, 2]);
    assert_eq!(peers[0].port, 6881);
    assert_eq!(peers[1].ip, [10, 0, 0, 1]);
    assert_eq!(peers[1].port, 80);
}

#[test]
fn ragged_peer_list_is_violation() {
    let bytes: Vec<u8> = vec![1, 2, 3, 4, 5, 6, 7];
    assert!(matches!(
        Peer::vec_from_bytes(bytes.as_slice()),
        Err(Error::ProtocolViolation)
    ));
}

#[test]
fn piece_hashes_split_into_twenties() {
    let mut pieces: Vec<u8> = Vec::new();
    for b in 0..40u8 {
        pieces.push(b);
    }
    let hashes = piece_hashes_from_bytes(&pieces).unwrap();
    assert_eq!(hashes.len(), 2);
    assert_eq!(hashes[0], (0..20).collect::<Vec<u8>>());
    assert_eq!(hashes[1], (20..40).collect::<Vec<u8>>());

    let ragged: Vec<u8> = vec![0; 21];
    assert!(matches!(
        piece_hashes_from_bytes(&ragged),
        Err(Error::ProtocolViolation)
    ));
}

#[test]
fn descriptor_validation() {
    let pieces: Vec<u8> = vec![7; 40];
    let t = TorrentFile::new(
        String::from("two.bin"),
        String::from("http://tracker.example/announce"),
        vec![9; 20],
        600,
        512,
        &pieces,
    )
    .unwrap();
    assert_eq!(t.piece_hashes.len(), 2);
    assert_eq!(t.length, 600);

    // too few pieces for the length
    assert!(matches!(
        TorrentFile::new(
            String::from("x"),
            String::from("http://t"),
            vec![9; 20],
            2000,
            512,
            &pieces,
        ),
        Err(Error::ProtocolViolation)
    ));
    // a 19-byte info-hash
    assert!(matches!(
        TorrentFile::new(
            String::from("x"),
            String::from("http://t"),
            vec![9; 19],
            600,
            512,
            &pieces,
        ),
        Err(Error::ProtocolViolation)
    ));
    // a zero piece length
    assert!(matches!(
        TorrentFile::new(
            String::from("x"),
            String::from("http://t"),
            vec![9; 20],
            600,
            0,
            &pieces,
        ),
        Err(Error::ProtocolViolation)
    ));
}

#[test]
fn descriptor_seeds_scheduler() {
    let pieces: Vec<u8> = vec![7; 60];
    let t = TorrentFile::new(
        String::from("three.bin"),
        String::from("http://t"),
        vec![9; 20],
        1100,
        512,
        &pieces,
    )
    .unwrap();
    let sched = t.make_scheduler();
    assert_eq!(sched.pending_count(), 3);
    assert!(!sched.is_done());
}

#[test]
fn percent_encoding_is_uppercase_hex() {
    let out = percent_encode_all(&vec![0x00, 0x1a, 0xab, 0xff]);
    assert_eq!(out, b"%00%1A%AB%FF".to_vec());
}

#[test]
fn tracker_query_layout() {
    let announce = b"http://tracker.example/announce".to_vec();
    let info_hash = vec![0x12, 0xab];
    let peer_id = vec![0x00];
    let url = build_tracker_query(&announce, &info_hash, &peer_id, 6881, 42);
    assert_eq!(
        String::from_utf8(url).unwrap(),
        "http://tracker.example/announce?info_hash=%12%AB&peer_id=%00\
         &port=6881&uploaded=0&downloaded=0&compact=1&left=42"
    );
}

#[test]
fn fresh_peer_ids_are_twenty_bytes() {
    let id = fresh_peer_id();
    assert_eq!(id.len(), 20);
}

#[test]
fn empty_descriptor_is_immediately_done() {
    let t = TorrentFile::new(
        String::from("empty"),
        String::from("http://t"),
        vec![9; 20],
        0,
        512,
        &Vec::new(),
    )
    .unwrap();
    let mut sched = t.make_scheduler();
    assert!(sched.is_done());
    assert_eq!(sched.pending_count(), 0);
    assert!(sched
        .pop_work_for(&peerwire::Bitfield(vec![0xff]))
        .is_none());
}
