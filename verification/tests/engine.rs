use peerwire::piece::{PieceWork, BLOCK_SIZE, MAX_BACKLOG};
use peerwire::scheduler::Scheduler;
use peerwire::session::{expect_bitfield, fill_requests, PeerSession, WorkerStep, MAX_FAILURES};
use peerwire::{Bitfield, Error, Message};
use sha1::{Digest, Sha1};

fn sha1_of(data: &[u8]) -> Vec<u8> {
    Sha1::digest(data).to_vec()
}

fn scheduler_for(pieces: &[&[u8]]) -> Scheduler {
    let piece_length = pieces[0].len() as u32;
    let total: u64 = pieces.iter().map(|p| p.len() as u64).sum();
    let hashes: Vec<Vec<u8>> = pieces.iter().map(|p| sha1_of(p)).collect();
    Scheduler::new(hashes, total, piece_length)
}

#[test]
fn verified_piece_is_accepted_exactly_once() {
    let data = b"abc";
    // the well-known SHA-1 of "abc"
    let expected = vec![
        0xa9, 0x99, 0x3e, 0x36, 0x47, 0x06, 0x81, 0x6a, 0xba, 0x3e, 0x25, 0x71, 0x78, 0x50,
        0xc2, 0x6c, 0x9c, 0xd0, 0xd8, 0x9d,
    ];
    assert_eq!(sha1_of(data), expected);

    let mut sched = Scheduler::new(vec![expected.clone()], 3, 3);
    let all = Bitfield(vec![0b10000000]);
    let mut work = sched.pop_work_for(&all).unwrap();
    work.absorb_block(0, &data.to_vec()).unwrap();
    assert!(work.is_complete());
    let res = sched.submit_piece(work).unwrap();
    assert_eq!(res.index, 0);
    assert_eq!(res.buf, data.to_vec());
    assert!(sched.is_done());
    // accepted once: nothing is left to hand out
    assert_eq!(sched.pending_count(), 0);
    assert!(sched.pop_work_for(&all).is_none());
}

#[test]
fn hash_mismatch_keeps_piece_queued() {
    let mut sched = Scheduler::new(vec![vec![0u8; 20]], 3, 3);
    let all = Bitfield(vec![0b10000000]);
    let mut work = sched.pop_work_for(&all).unwrap();
    work.absorb_block(0, &b"abc".to_vec()).unwrap();
    // "abc" does not hash to twenty zero bytes
    assert!(matches!(
        sched.submit_piece(work),
        Err(Error::VerificationFailure)
    ));
    assert!(!sched.is_done());
    assert_eq!(sched.pending_count(), 1);
    // the piece can be handed out again, fresh
    let again = sched.pop_work_for(&all).unwrap();
    assert_eq!(again.index, 0);
    assert_eq!(again.buf.len(), 0);
}

#[test]
fn full_swarm_download_covers_every_index() {
    let pieces: [&[u8]; 3] = [b"aaaa", b"bbbb", b"cc"];
    let mut sched = scheduler_for(&pieces);
    let mut session = PeerSession::new(
        Bitfield(vec![0b11100000]),
        vec![0u8; 20],
        vec![1u8; 20],
    );
    let mut delivered: Vec<u32> = Vec::new();
    loop {
        let work = match sched.pop_work_for(&session.bitfield) {
            Some(w) => w,
            None => break,
        };
        let index = work.index;
        let data = pieces[index as usize].to_vec();
        let msg = Message::Piece(index, 0, data);
        let (left, step) = session.on_message(&mut sched, Some(work), &msg);
        assert!(left.is_none());
        match step {
            WorkerStep::Delivered(res) => {
                assert_eq!(res.index, index);
                assert_eq!(res.buf, pieces[index as usize].to_vec());
                delivered.push(res.index);
            }
            other => panic!("expected a delivery, got {:?}", other),
        }
    }
    let mut seen = delivered.clone();
    seen.sort();
    assert_eq!(seen, vec![0, 1, 2]);
    assert!(sched.is_done());
    assert_eq!(sched.pending_count(), 0);
}

#[test]
fn wrong_index_piece_drops_only_that_session() {
    let pieces: [&[u8]; 2] = [b"aaaa", b"bb"];
    let mut sched = scheduler_for(&pieces);
    let mut session = PeerSession::new(Bitfield(vec![0b11000000]), vec![0u8; 20], vec![1u8; 20]);

    // another peer completes piece 0 first
    let work0 = sched.pop_work_for(&session.bitfield).unwrap();
    assert_eq!(work0.index, 0);
    let msg = Message::Piece(0, 0, pieces[0].to_vec());
    let (_, step) = session.on_message(&mut sched, Some(work0), &msg);
    assert!(matches!(step, WorkerStep::Delivered(_)));

    // this session then misbehaves on piece 1
    let work1 = sched.pop_work_for(&session.bitfield).unwrap();
    assert_eq!(work1.index, 1);
    let bad = Message::Piece(7, 0, vec![1, 2]);
    let (left, step) = session.on_message(&mut sched, Some(work1), &bad);
    assert!(left.is_none());
    assert!(matches!(step, WorkerStep::DropPeer(Error::ProtocolViolation)));

    // piece 0 stays completed and is not re-requested; piece 1 is requeued
    assert!(!sched.is_done());
    assert_eq!(sched.pending_count(), 1);
    let requeued = sched.pop_work_for(&session.bitfield).unwrap();
    assert_eq!(requeued.index, 1);
    assert_eq!(requeued.buf.len(), 0);
}

#[test]
fn choke_mid_piece_requeues_whole_piece() {
    let pieces: [&[u8]; 1] = [b"aaaaaaaa"];
    let mut sched = scheduler_for(&pieces);
    let mut session = PeerSession::new(Bitfield(vec![0b10000000]), vec![0u8; 20], vec![1u8; 20]);
    let (_, step) = session.on_message(&mut sched, None, &Message::Unchoke);
    assert!(matches!(step, WorkerStep::Continue));
    assert!(!session.choked);

    let mut work = sched.pop_work_for(&session.bitfield).unwrap();
    work.absorb_block(0, &b"aaaa".to_vec()).unwrap();
    let (left, step) = session.on_message(&mut sched, Some(work), &Message::Choke);
    assert!(session.choked);
    assert!(left.is_none());
    assert!(matches!(step, WorkerStep::Rechoked));
    // partial progress is discarded; the piece waits whole in the queue
    let again = sched.pop_work_for(&session.bitfield).unwrap();
    assert_eq!(again.index, 0);
    assert_eq!(again.buf.len(), 0);
}

#[test]
fn repeated_verification_failures_evict_peer() {
    let pieces: [&[u8]; 1] = [b"good"];
    let mut sched = scheduler_for(&pieces);
    let mut session = PeerSession::new(Bitfield(vec![0b10000000]), vec![0u8; 20], vec![1u8; 20]);
    let mut last = WorkerStep::Continue;
    for _ in 0..MAX_FAILURES {
        let work = sched.pop_work_for(&session.bitfield).unwrap();
        let msg = Message::Piece(0, 0, b"evil".to_vec());
        let (_, step) = session.on_message(&mut sched, Some(work), &msg);
        last = step;
    }
    assert!(matches!(
        last,
        WorkerStep::DropPeer(Error::VerificationFailure)
    ));
    assert_eq!(session.failures, MAX_FAILURES);
    assert!(!sched.is_done());
    assert_eq!(sched.pending_count(), 1);
}

#[test]
fn have_message_widens_bitfield() {
    let pieces: [&[u8]; 2] = [b"aaaa", b"bb"];
    let mut sched = scheduler_for(&pieces);
    let mut session = PeerSession::new(Bitfield(vec![0b00000000]), vec![0u8; 20], vec![1u8; 20]);
    assert!(sched.pop_work_for(&session.bitfield).is_none());
    let (_, step) = session.on_message(&mut sched, None, &Message::Have(1));
    assert!(matches!(step, WorkerStep::Continue));
    assert!(session.bitfield.has_piece(1));
    let work = sched.pop_work_for(&session.bitfield).unwrap();
    assert_eq!(work.index, 1);
}

#[test]
fn unsolicited_piece_drops_session() {
    let pieces: [&[u8]; 1] = [b"aaaa"];
    let mut sched = scheduler_for(&pieces);
    let mut session = PeerSession::new(Bitfield(vec![0b10000000]), vec![0u8; 20], vec![1u8; 20]);
    let msg = Message::Piece(0, 0, b"aaaa".to_vec());
    let (left, step) = session.on_message(&mut sched, None, &msg);
    assert!(left.is_none());
    assert!(matches!(step, WorkerStep::DropPeer(Error::ProtocolViolation)));
    assert_eq!(sched.pending_count(), 1);
}

#[test]
fn misplaced_block_drops_session() {
    let pieces: [&[u8]; 1] = [b"aaaaaaaa"];
    let mut sched = scheduler_for(&pieces);
    let mut session = PeerSession::new(Bitfield(vec![0b10000000]), vec![0u8; 20], vec![1u8; 20]);
    let work = sched.pop_work_for(&session.bitfield).unwrap();
    // block offset 4 arrives while the next write offset is 0
    let msg = Message::Piece(0, 4, b"aaaa".to_vec());
    let (left, step) = session.on_message(&mut sched, Some(work), &msg);
    assert!(left.is_none());
    assert!(matches!(step, WorkerStep::DropPeer(Error::ProtocolViolation)));
    assert_eq!(sched.pending_count(), 1);
}

#[test]
fn request_pipeline_blocks_and_backlog() {
    let mut work = PieceWork::new(5, 40000, vec![0u8; 20]);
    let reqs = fill_requests(&mut work);
    assert_eq!(
        reqs,
        vec![
            (5, 0, BLOCK_SIZE),
            (5, BLOCK_SIZE, BLOCK_SIZE),
            (5, 2 * BLOCK_SIZE, 40000 - 2 * BLOCK_SIZE),
        ]
    );
    assert_eq!(work.requested, 40000);
    assert_eq!(work.backlog, 3);

    // a long piece stops at the backlog bound
    let mut big = PieceWork::new(0, 10 * BLOCK_SIZE, vec![0u8; 20]);
    let reqs = fill_requests(&mut big);
    assert_eq!(reqs.len(), MAX_BACKLOG as usize);
    assert_eq!(big.requested, MAX_BACKLOG * BLOCK_SIZE);
    // in-flight requests never exceed the backlog bound
    assert_eq!(big.backlog, MAX_BACKLOG);
    let none_more = fill_requests(&mut big);
    assert!(none_more.is_empty());
    assert_eq!(big.backlog, MAX_BACKLOG);
}

#[test]
fn release_work_loses_nothing() {
    let pieces: [&[u8]; 1] = [b"aaaa"];
    let mut sched = scheduler_for(&pieces);
    let all = Bitfield(vec![0b10000000]);
    let mut work = sched.pop_work_for(&all).unwrap();
    work.absorb_block(0, &b"aa".to_vec()).unwrap();
    assert_eq!(sched.pending_count(), 0);
    sched.release_work(work);
    assert_eq!(sched.pending_count(), 1);
    let again = sched.pop_work_for(&all).unwrap();
    assert_eq!(again.index, 0);
    assert_eq!(again.buf.len(), 0);
}

#[test]
fn first_message_must_be_bitfield() {
    let bf = expect_bitfield(Message::Bitfield(vec![0b10100000])).unwrap();
    assert!(bf.has_piece(0));
    assert!(!bf.has_piece(1));
    assert!(matches!(
        expect_bitfield(Message::Unchoke),
        Err(Error::ProtocolViolation)
    ));
}
