use vstd::prelude::*;
use crate::bitfield::{Bitfield, spec_has};
use crate::error::Error;
use crate::message::{Message, MessageView};
use crate::piece::{BLOCK_SIZE, MAX_BACKLOG, PieceResult, PieceWork, sha1_of};
use crate::scheduler::Scheduler;

verus! {

/// Consecutive verification failures a peer is allowed before eviction.
pub const MAX_FAILURES: u32 = 3;

/// The negotiated state of one connection: the choke flag (true until an
/// Unchoke is observed), the peer's advertised bitfield, the swarm's
/// info-hash and our peer-id, and the peer's consecutive failure count.
pub struct PeerSession {
    pub choked: bool,
    pub bitfield: Bitfield,
    pub info_hash: Vec<u8>,
    pub peer_id: Vec<u8>,
    pub failures: u32,
}

/// What a worker must do after one observed message.
#[derive(Debug)]
pub enum WorkerStep {
    /// Nothing decided: keep exchanging messages.
    Continue,
    /// The peer choked us mid-piece; any owned work went back to the queue.
    Rechoked,
    /// A fully verified piece is ready for the storage sink.
    Delivered(PieceResult),
    /// The assembled piece failed its hash check and went back to the
    /// queue; the session survives for another attempt.
    RetryPiece,
    /// The session must be destroyed; any owned work is already back in the
    /// queue.
    DropPeer(Error),
}

/// `b` is `a` with a fresh copy of `w` put back on the queue and nothing
/// else changed: no completion gained or lost, no other entry touched.
pub open spec fn spec_requeued(a: Scheduler, b: Scheduler, w: PieceWork) -> bool {
    &&& b.wf()
    &&& b.queued(w.index as int)
    &&& b.queue@.len() == a.queue@.len() + 1
    &&& b.queue@.subrange(0, a.queue@.len() as int) == a.queue@
    &&& b.queue@.last().same_piece(w)
    &&& b.queue@.last().is_fresh()
    &&& b.completed == a.completed
    &&& b.hashes == a.hashes
    &&& b.done_count == a.done_count
    &&& b.piece_length == a.piece_length
    &&& b.total_length == a.total_length
}

impl PeerSession {
    /// A session right after the handshake and the peer's initial bitfield:
    /// choked, with a clean failure record.
    pub fn new(bitfield: Bitfield, info_hash: Vec<u8>, peer_id: Vec<u8>) -> (r: PeerSession)
        ensures
            r.choked == true,
            r.failures == 0,
            r.bitfield == bitfield,
            r.info_hash == info_hash,
            r.peer_id == peer_id,
    {
        PeerSession { choked: true, bitfield, info_hash, peer_id, failures: 0 }
    }

    /// One step of the worker's state machine: reacts to an observed wire
    /// message, given the piece currently owned (if any), and decides what
    /// the worker does next. Flow control flips only on Choke/Unchoke; a
    /// wrong-index or ill-placed block drops only this session, with the
    /// owned piece requeued; a completed piece is delivered exactly when its
    /// SHA-1 matches, and otherwise requeued while the peer's failure count
    /// rises.
    pub fn on_message(
        &mut self,
        sched: &mut Scheduler,
        work: Option<PieceWork>,
        msg: &Message,
    ) -> (r: (Option<PieceWork>, WorkerStep))
        requires
            old(sched).wf(),
            work matches Some(w) ==> old(sched).owns(w),
            old(self).failures < MAX_FAILURES,
        ensures
            final(sched).wf(),
            final(sched).hashes == old(sched).hashes,
            final(sched).piece_length == old(sched).piece_length,
            final(sched).total_length == old(sched).total_length,
            forall|i: int|
                0 <= i < old(sched).num_pieces() && old(sched).completed@[i]
                    ==> final(sched).completed@[i],
            final(self).info_hash == old(self).info_hash,
            final(self).peer_id == old(self).peer_id,
            r.0 matches Some(w2) ==> final(sched).owns(w2),
            match msg@ {
                MessageView::Choke => {
                    &&& final(self).choked == true
                    &&& final(self).bitfield == old(self).bitfield
                    &&& final(self).failures == old(self).failures
                    &&& r.0 is None
                    &&& match work {
                        Some(w) => r.1 is Rechoked && spec_requeued(
                            *old(sched),
                            *final(sched),
                            w,
                        ),
                        None => r.1 is Continue && *final(sched) == *old(sched),
                    }
                },
                MessageView::Unchoke => {
                    &&& final(self).choked == false
                    &&& final(self).bitfield == old(self).bitfield
                    &&& final(self).failures == old(self).failures
                    &&& *final(sched) == *old(sched)
                    &&& r.0 == work
                    &&& r.1 is Continue
                },
                MessageView::Have(i) => {
                    &&& final(self).choked == old(self).choked
                    &&& final(self).failures == old(self).failures
                    &&& *final(sched) == *old(sched)
                    &&& r.0 == work
                    &&& r.1 is Continue
                    &&& final(self).bitfield@.len() == old(self).bitfield@.len()
                    &&& (i as int / 8 < old(self).bitfield@.len() ==> spec_has(
                        final(self).bitfield@,
                        i as int,
                    ))
                    &&& forall|j: int|
                        j != i as int ==> spec_has(final(self).bitfield@, j) == spec_has(
                            old(self).bitfield@,
                            j,
                        )
                },
                MessageView::Piece(i, begin, blk) => {
                    &&& final(self).choked == old(self).choked
                    &&& final(self).bitfield == old(self).bitfield
                    &&& match work {
                        None => {
                            &&& *final(sched) == *old(sched)
                            &&& final(self).failures == old(self).failures
                            &&& r.0 is None
                            &&& (r.1 matches WorkerStep::DropPeer(e) && e
                                == Error::ProtocolViolation)
                        },
                        Some(w) => {
                            if i != w.index || begin != w.buf@.len() || w.buf@.len() + blk.len()
                                > w.length {
                                &&& spec_requeued(*old(sched), *final(sched), w)
                                &&& final(self).failures == old(self).failures
                                &&& r.0 is None
                                &&& (r.1 matches WorkerStep::DropPeer(e) && e
                                    == Error::ProtocolViolation)
                            } else if w.buf@.len() + blk.len() < w.length {
                                &&& *final(sched) == *old(sched)
                                &&& final(self).failures == old(self).failures
                                &&& (r.0 matches Some(w2) && w2.same_piece(w) && w2.buf@ == w.buf@
                                    + blk && w2.requested == w.requested)
                                &&& r.1 is Continue
                            } else if sha1_of(w.buf@ + blk) == w.hash@ {
                                &&& final(self).failures == 0
                                &&& final(sched).completed@ == old(sched).completed@.update(
                                    w.index as int,
                                    true,
                                )
                                &&& final(sched).done_count == old(sched).done_count + 1
                                &&& final(sched).queue == old(sched).queue
                                &&& r.0 is None
                                &&& (r.1 matches WorkerStep::Delivered(res) && res.index == w.index
                                    && res.buf@ == w.buf@ + blk && sha1_of(res.buf@) == w.hash@)
                            } else {
                                &&& spec_requeued(*old(sched), *final(sched), w)
                                &&& final(self).failures == old(self).failures + 1
                                &&& r.0 is None
                                &&& if old(self).failures + 1 >= MAX_FAILURES {
                                    (r.1 matches WorkerStep::DropPeer(e) && e
                                        == Error::VerificationFailure)
                                } else {
                                    r.1 is RetryPiece
                                }
                            }
                        },
                    }
                },
                _ => {
                    &&& *final(self) == *old(self)
                    &&& *final(sched) == *old(sched)
                    &&& r.0 == work
                    &&& r.1 is Continue
                },
            },
    {
        match msg {
            Message::Choke => {
                self.choked = true;
                match work {
                    Some(w) => {
                        sched.release_work(w);
                        (None, WorkerStep::Rechoked)
                    },
                    None => (None, WorkerStep::Continue),
                }
            },
            Message::Unchoke => {
                self.choked = false;
                (work, WorkerStep::Continue)
            },
            Message::Have(i) => {
                self.bitfield.set_piece(*i as usize);
                (work, WorkerStep::Continue)
            },
            Message::Piece(i, begin, blk) => {
                match work {
                    None => (None, WorkerStep::DropPeer(Error::ProtocolViolation)),
                    Some(w) => {
                        if *i != w.index {
                            sched.release_work(w);
                            (None, WorkerStep::DropPeer(Error::ProtocolViolation))
                        } else {
                            let mut w = w;
                            match w.absorb_block(*begin, blk) {
                                Err(_) => {
                                    sched.release_work(w);
                                    (None, WorkerStep::DropPeer(Error::ProtocolViolation))
                                },
                                Ok(()) => {
                                    if !w.is_complete() {
                                        (Some(w), WorkerStep::Continue)
                                    } else {
                                        match sched.submit_piece(w) {
                                            Ok(res) => {
                                                self.failures = 0;
                                                (None, WorkerStep::Delivered(res))
                                            },
                                            Err(_) => {
                                                self.failures = self.failures + 1;
                                                if self.failures >= MAX_FAILURES {
                                                    (
                                                        None,
                                                        WorkerStep::DropPeer(
                                                            Error::VerificationFailure,
                                                        ),
                                                    )
                                                } else {
                                                    (None, WorkerStep::RetryPiece)
                                                }
                                            },
                                        }
                                    }
                                },
                            }
                        }
                    },
                }
            },
            _ => (work, WorkerStep::Continue),
        }
    }
}

/// The opening rule of a session: after the handshake, the very next wire
/// message must be the peer's bitfield; anything else is a protocol
/// violation that fails the session before it starts.
pub fn expect_bitfield(first: Message) -> (r: Result<Bitfield, Error>)
    ensures
        match r {
            Ok(bf) => first@ matches MessageView::Bitfield(b) && bf@ == b,
            Err(e) => !(first@ matches MessageView::Bitfield(_)) && e == Error::ProtocolViolation,
        },
{
    match first {
        Message::Bitfield(bytes) => Ok(Bitfield(bytes)),
        _ => Err(Error::ProtocolViolation),
    }
}

/// Pipelines block requests for an owned piece: starting right after what
/// has already been requested, whole blocks of BLOCK_SIZE (the last one
/// shorter) until either the whole piece has been requested or MAX_BACKLOG
/// requests are in flight. Returns the (index, begin, length) triples to
/// send, in order.
pub fn fill_requests(work: &mut PieceWork) -> (r: Vec<(u32, u32, u32)>)
    requires
        old(work).wf(),
    ensures
        final(work).wf(),
        final(work).same_piece(*old(work)),
        final(work).hash == old(work).hash,
        final(work).buf == old(work).buf,
        final(work).backlog == old(work).backlog + r@.len(),
        old(work).backlog <= MAX_BACKLOG ==> final(work).backlog <= MAX_BACKLOG,
        final(work).requested >= old(work).requested,
        forall|j: int|
            0 <= j < r@.len() ==> {
                let t = #[trigger] r@[j];
                &&& t.0 == old(work).index
                &&& t.1 == old(work).requested + j * (BLOCK_SIZE as int)
                &&& t.2 == if old(work).length - t.1 < BLOCK_SIZE {
                    (old(work).length - t.1) as u32
                } else {
                    BLOCK_SIZE
                }
                &&& t.2 > 0
            },
        r@.len() == 0 ==> *final(work) == *old(work),
        r@.len() > 0 ==> final(work).requested == r@[r@.len() - 1].1 + r@[r@.len() - 1].2,
        final(work).backlog >= MAX_BACKLOG || final(work).requested == final(work).length,
        r@.len() == 0 ==> (old(work).requested == old(work).length || old(work).backlog
            >= MAX_BACKLOG),
{
    let mut out: Vec<(u32, u32, u32)> = Vec::new();
    while work.needs_request()
        invariant
            work.wf(),
            work.same_piece(*old(work)),
            work.hash == old(work).hash,
            work.buf == old(work).buf,
            work.backlog == old(work).backlog + out@.len(),
            old(work).backlog <= MAX_BACKLOG ==> work.backlog <= MAX_BACKLOG,
            work.requested >= old(work).requested,
            forall|j: int|
                0 <= j < out@.len() ==> {
                    let t = #[trigger] out@[j];
                    &&& t.0 == old(work).index
                    &&& t.1 == old(work).requested + j * (BLOCK_SIZE as int)
                    &&& t.2 == if old(work).length - t.1 < BLOCK_SIZE {
                        (old(work).length - t.1) as u32
                    } else {
                        BLOCK_SIZE
                    }
                    &&& t.2 > 0
                },
            out@.len() == 0 ==> *work == *old(work),
            out@.len() > 0 ==> work.requested == out@[out@.len() - 1].1 + out@[out@.len() - 1].2,
            out@.len() > 0 ==> (work.requested == old(work).requested + out@.len() * (
            BLOCK_SIZE as int) || work.requested == work.length),
        decreases (work.length - work.requested) + (MAX_BACKLOG - work.backlog),
    {
        let t = work.next_request();
        out.push(t);
    }
    out
}

} // verus!
