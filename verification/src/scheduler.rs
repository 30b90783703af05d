use vstd::prelude::*;
use vstd::arithmetic::mul::lemma_mul_inequality;
use crate::bitfield::{Bitfield, spec_has};
use crate::bytes::copy_bytes;
use crate::error::Error;
use crate::piece::{PieceResult, PieceWork, sha1_of};

verus! {

/// How many entries of `s` are true.
pub open spec fn count_trues(s: Seq<bool>) -> int
    decreases s.len(),
{
    if s.len() == 0 {
        0
    } else {
        count_trues(s.drop_last()) + if s.last() {
            1int
        } else {
            0int
        }
    }
}

proof fn lemma_count_trues_bounds(s: Seq<bool>)
    ensures
        0 <= count_trues(s) <= s.len(),
    decreases s.len(),
{
    if s.len() > 0 {
        lemma_count_trues_bounds(s.drop_last());
    }
}

proof fn lemma_count_trues_update(s: Seq<bool>, i: int)
    requires
        0 <= i < s.len(),
        !s[i],
    ensures
        count_trues(s.update(i, true)) == count_trues(s) + 1,
    decreases s.len(),
{
    if i == s.len() - 1 {
        assert(s.update(i, true).drop_last() =~= s.drop_last());
    } else {
        assert(s.update(i, true).drop_last() =~= s.drop_last().update(i, true));
        lemma_count_trues_update(s.drop_last(), i);
    }
}

proof fn lemma_count_trues_full(s: Seq<bool>)
    requires
        count_trues(s) == s.len(),
    ensures
        forall|i: int| 0 <= i < s.len() ==> s[i],
    decreases s.len(),
{
    if s.len() > 0 {
        lemma_count_trues_bounds(s.drop_last());
        lemma_count_trues_full(s.drop_last());
        assert forall|i: int| 0 <= i < s.len() implies s[i] by {
            if i < s.len() - 1 {
                assert(s.drop_last()[i] == s[i]);
            }
        }
    }
}

/// The shared work queue of a download: one PieceWork per descriptor piece,
/// seeded in ascending index order, handed out to workers, requeued on
/// failure, and retired exactly once after its hash check passes.
pub struct Scheduler {
    pub queue: Vec<PieceWork>,
    pub completed: Vec<bool>,
    pub hashes: Vec<Vec<u8>>,
    pub piece_length: u32,
    pub total_length: u64,
    pub done_count: usize,
}

impl Scheduler {
    /// How many pieces the descriptor has.
    pub open spec fn num_pieces(self) -> int {
        self.hashes@.len() as int
    }

    /// The byte length of piece `i`: the descriptor's piece length, except
    /// that the last piece carries only what remains of the total.
    pub open spec fn piece_len_of(self, i: int) -> int {
        if (i + 1) * (self.piece_length as int) <= self.total_length {
            self.piece_length as int
        } else {
            self.total_length - i * (self.piece_length as int)
        }
    }

    /// What holds of every queued entry: a fresh, well-formed PieceWork for
    /// a not-yet-completed piece, carrying that piece's hash and length.
    pub open spec fn entry_ok(self, w: PieceWork) -> bool {
        &&& w.wf()
        &&& w.is_fresh()
        &&& (w.index as int) < self.num_pieces()
        &&& !self.completed@[w.index as int]
        &&& w.hash@ == self.hashes@[w.index as int]@
        &&& w.length == self.piece_len_of(w.index as int)
    }

    /// Whether some queued entry is for piece `i`.
    pub open spec fn queued(self, i: int) -> bool {
        exists|k: int| 0 <= k < self.queue@.len() && (#[trigger] self.queue@[k]).index == i
    }

    /// The scheduler's invariant: consistent descriptor geometry, 20-byte
    /// hashes, a completion count that matches the flags, and a queue of
    /// well-formed entries with pairwise distinct indices, none completed.
    pub open spec fn wf(self) -> bool {
        &&& self.completed@.len() == self.num_pieces()
        &&& self.num_pieces() <= 0xffff_ffff
        &&& self.piece_length > 0
        &&& (self.num_pieces() == 0 ==> self.total_length == 0)
        &&& (self.num_pieces() > 0 ==> (self.num_pieces() - 1) * (self.piece_length as int)
            < self.total_length <= self.num_pieces() * (self.piece_length as int))
        &&& (forall|i: int| 0 <= i < self.num_pieces() ==> (#[trigger] self.hashes@[i])@.len()
            == 20)
        &&& (forall|k: int|
            0 <= k < self.queue@.len() ==> self.entry_ok(#[trigger] self.queue@[k]))
        &&& (forall|k1: int, k2: int|
            0 <= k1 < k2 < self.queue@.len() ==> (#[trigger] self.queue@[k1]).index != (
            #[trigger] self.queue@[k2]).index)
        &&& self.done_count == count_trues(self.completed@)
    }

    /// What holds of a piece a worker has checked out: well-formed, for a
    /// pending piece of this download, held by nobody else.
    pub open spec fn owns(self, w: PieceWork) -> bool {
        &&& w.wf()
        &&& (w.index as int) < self.num_pieces()
        &&& !self.completed@[w.index as int]
        &&& !self.queued(w.index as int)
        &&& w.hash@ == self.hashes@[w.index as int]@
        &&& w.length == self.piece_len_of(w.index as int)
    }

    /// Seeds the queue with one fresh PieceWork per piece, indices ascending
    /// from zero, and no piece completed.
    pub fn new(piece_hashes: Vec<Vec<u8>>, total_length: u64, piece_length: u32) -> (r: Scheduler)
        requires
            piece_length > 0,
            piece_hashes@.len() <= 0xffff_ffff,
            forall|i: int|
                0 <= i < piece_hashes@.len() ==> (#[trigger] piece_hashes@[i])@.len() == 20,
            piece_hashes@.len() == 0 ==> total_length == 0,
            piece_hashes@.len() > 0 ==> (piece_hashes@.len() - 1) * (piece_length as int)
                < total_length <= piece_hashes@.len() * (piece_length as int),
        ensures
            r.wf(),
            r.hashes == piece_hashes,
            r.piece_length == piece_length,
            r.total_length == total_length,
            r.done_count == 0,
            r.queue@.len() == piece_hashes@.len(),
            forall|k: int| 0 <= k < r.queue@.len() ==> (#[trigger] r.queue@[k]).index == k,
            forall|i: int| 0 <= i < r.num_pieces() ==> !r.completed@[i],
    {
        let ghost total = total_length as int;
        let ghost pl = piece_length as int;
        let n = piece_hashes.len();
        let mut queue: Vec<PieceWork> = Vec::new();
        let mut completed: Vec<bool> = Vec::new();
        let mut i: usize = 0;
        while i < n
            invariant
                i <= n,
                n == piece_hashes@.len(),
                n <= 0xffff_ffff,
                piece_length > 0,
                pl == piece_length as int,
                total == total_length as int,
                forall|j: int|
                    0 <= j < piece_hashes@.len() ==> (#[trigger] piece_hashes@[j])@.len() == 20,
                n > 0 ==> (n - 1) * pl < total <= n * pl,
                n == 0 ==> total == 0,
                queue@.len() == i,
                completed@.len() == i,
                forall|k: int| 0 <= k < i ==> !completed@[k],
                forall|k: int| 0 <= k < i ==> (#[trigger] queue@[k]).index == k,
                forall|k: int|
                    0 <= k < i ==> {
                        let w = #[trigger] queue@[k];
                        &&& w.wf()
                        &&& w.is_fresh()
                        &&& w.hash@ == piece_hashes@[k]@
                        &&& w.length == if (k + 1) * pl <= total {
                            pl
                        } else {
                            total - k * pl
                        }
                    },
            decreases n - i,
        {
            proof {
                lemma_mul_inequality(i as int, n as int - 1, pl);
                lemma_mul_inequality(i as int + 1, n as int, pl);
                assert((i as int) * pl < total);
            }
            let start: u64 = (i as u64) * (piece_length as u64);
            let remaining: u64 = total_length - start;
            let len_i: u32 = if remaining < piece_length as u64 {
                remaining as u32
            } else {
                piece_length
            };
            proof {
                assert((i as int + 1) * pl == (i as int) * pl + pl) by (nonlinear_arith);
                assert(len_i == if (i as int + 1) * pl <= total {
                    pl
                } else {
                    total - (i as int) * pl
                });
            }
            let h = copy_bytes(&piece_hashes[i]);
            queue.push(PieceWork::new(i as u32, len_i, h));
            completed.push(false);
            i = i + 1;
        }
        let r = Scheduler {
            queue,
            completed,
            hashes: piece_hashes,
            piece_length,
            total_length,
            done_count: 0,
        };
        proof {
            assert(count_trues(r.completed@) == 0) by {
                lemma_count_all_false(r.completed@);
            }
            assert forall|k: int| 0 <= k < r.queue@.len() implies r.entry_ok(
                #[trigger] r.queue@[k],
            ) by {
                assert(r.queue@[k].index == k);
            }
        }
        r
    }

    /// How many pieces are waiting in the queue.
    pub fn pending_count(&self) -> (r: usize)
        ensures
            r == self.queue@.len(),
    {
        self.queue.len()
    }

    /// Whether every piece has been completed.
    pub fn is_done(&self) -> (r: bool)
        requires
            self.wf(),
        ensures
            r == (self.done_count == self.num_pieces()),
            r ==> forall|i: int| 0 <= i < self.num_pieces() ==> self.completed@[i],
    {
        let r = self.done_count == self.hashes.len();
        proof {
            if r {
                lemma_count_trues_full(self.completed@);
            }
        }
        r
    }

    /// Hands out the first queued piece that the peer's bitfield advertises,
    /// removing it from the queue; nothing if the peer holds none of the
    /// pending pieces and so cannot contribute further.
    pub fn pop_work_for(&mut self, bf: &Bitfield) -> (r: Option<PieceWork>)
        requires
            old(self).wf(),
        ensures
            final(self).wf(),
            final(self).completed == old(self).completed,
            final(self).hashes == old(self).hashes,
            final(self).done_count == old(self).done_count,
            final(self).piece_length == old(self).piece_length,
            final(self).total_length == old(self).total_length,
            match r {
                Some(w) => {
                    &&& old(self).entry_ok(w)
                    &&& spec_has(bf@, w.index as int)
                    &&& exists|k: int|
                        {
                            &&& 0 <= k < old(self).queue@.len()
                            &&& w == old(self).queue@[k]
                            &&& final(self).queue@ == old(self).queue@.remove(k)
                            &&& forall|j: int|
                                0 <= j < k ==> !spec_has(
                                    bf@,
                                    (#[trigger] old(self).queue@[j]).index as int,
                                )
                        }
                    &&& !final(self).queued(w.index as int)
                },
                None => {
                    &&& final(self).queue == old(self).queue
                    &&& forall|j: int|
                        0 <= j < old(self).queue@.len() ==> !spec_has(
                            bf@,
                            (#[trigger] old(self).queue@[j]).index as int,
                        )
                },
            },
    {
        let mut k: usize = 0;
        while k < self.queue.len()
            invariant
                *self == *old(self),
                old(self).wf(),
                k <= self.queue@.len(),
                forall|j: int|
                    0 <= j < k ==> !spec_has(bf@, (#[trigger] self.queue@[j]).index as int),
            decreases self.queue@.len() - k,
        {
            if bf.has_piece(self.queue[k].index as usize) {
                let w = self.queue.remove(k);
                proof {
                    assert forall|j: int|
                        0 <= j < self.queue@.len() implies self.entry_ok(
                        #[trigger] self.queue@[j],
                    ) by {
                        if j < k {
                            assert(self.queue@[j] == old(self).queue@[j]);
                        } else {
                            assert(self.queue@[j] == old(self).queue@[j + 1]);
                        }
                    }
                    assert forall|k1: int, k2: int|
                        0 <= k1 < k2 < self.queue@.len() implies (
                    #[trigger] self.queue@[k1]).index != (#[trigger] self.queue@[k2]).index by {
                        let a = if k1 < k { k1 } else { k1 + 1 };
                        let b = if k2 < k { k2 } else { k2 + 1 };
                        assert(self.queue@[k1] == old(self).queue@[a]);
                        assert(self.queue@[k2] == old(self).queue@[b]);
                    }
                    assert(!self.queued(w.index as int)) by {
                        if self.queued(w.index as int) {
                            let j = choose|j: int|
                                0 <= j < self.queue@.len() && (
                                #[trigger] self.queue@[j]).index == w.index;
                            let a = if j < k { j } else { j + 1 };
                            assert(self.queue@[j] == old(self).queue@[a]);
                        }
                    }
                }
                return Some(w);
            }
            k = k + 1;
        }
        None
    }

    /// Returns a piece to the queue: the whole-piece retry after a choke,
    /// a verification failure, or the loss of the owning peer.
    pub fn requeue(&mut self, w: PieceWork)
        requires
            old(self).wf(),
            old(self).entry_ok(w),
            !old(self).queued(w.index as int),
        ensures
            final(self).wf(),
            final(self).queue@ == old(self).queue@.push(w),
            final(self).queued(w.index as int),
            final(self).completed == old(self).completed,
            final(self).hashes == old(self).hashes,
            final(self).done_count == old(self).done_count,
            final(self).piece_length == old(self).piece_length,
            final(self).total_length == old(self).total_length,
    {
        self.queue.push(w);
        proof {
            let q = self.queue@;
            assert(q[q.len() - 1] == w);
            assert forall|k1: int, k2: int|
                0 <= k1 < k2 < q.len() implies (#[trigger] q[k1]).index != (
            #[trigger] q[k2]).index by {
                if k2 == q.len() - 1 {
                    assert(q[k1] == old(self).queue@[k1]);
                    if q[k1].index == w.index {
                        assert(old(self).queued(w.index as int));
                    }
                }
            }
        }
    }

    /// Gives up an owned piece wholesale, discarding any partial progress:
    /// the teardown path on peer loss, I/O failure, or shutdown, after which
    /// no piece is ever silently lost.
    pub fn release_work(&mut self, w: PieceWork)
        requires
            old(self).wf(),
            old(self).owns(w),
        ensures
            final(self).wf(),
            final(self).queued(w.index as int),
            final(self).queue@.len() == old(self).queue@.len() + 1,
            final(self).queue@.subrange(0, old(self).queue@.len() as int) == old(self).queue@,
            final(self).queue@.last().same_piece(w),
            final(self).queue@.last().is_fresh(),
            final(self).completed == old(self).completed,
            final(self).hashes == old(self).hashes,
            final(self).done_count == old(self).done_count,
            final(self).piece_length == old(self).piece_length,
            final(self).total_length == old(self).total_length,
    {
        let mut w2 = w;
        w2.reset();
        self.requeue(w2);
        proof {
            assert(self.queue@.subrange(0, old(self).queue@.len() as int) =~= old(self).queue@);
        }
    }

    /// Retires a fully assembled piece: accepted, exactly once, only when
    /// the SHA-1 of its buffer equals its expected hash, yielding the
    /// PieceResult for the storage sink; on a hash mismatch the piece is
    /// discarded and requeued fresh, still uncompleted.
    pub fn submit_piece(&mut self, work: PieceWork) -> (r: Result<PieceResult, Error>)
        requires
            old(self).wf(),
            work.wf(),
            work.spec_complete(),
            (work.index as int) < old(self).num_pieces(),
            !old(self).completed@[work.index as int],
            !old(self).queued(work.index as int),
            work.hash@ == old(self).hashes@[work.index as int]@,
            work.length == old(self).piece_len_of(work.index as int),
        ensures
            final(self).wf(),
            final(self).hashes == old(self).hashes,
            final(self).piece_length == old(self).piece_length,
            final(self).total_length == old(self).total_length,
            forall|i: int|
                0 <= i < old(self).num_pieces() && i != work.index as int
                    ==> final(self).completed@[i] == old(self).completed@[i],
            match r {
                Ok(res) => {
                    &&& sha1_of(work.buf@) == work.hash@
                    &&& res.index == work.index
                    &&& res.buf == work.buf
                    &&& final(self).completed@ == old(self).completed@.update(
                        work.index as int,
                        true,
                    )
                    &&& final(self).done_count == old(self).done_count + 1
                    &&& final(self).queue == old(self).queue
                },
                Err(e) => {
                    &&& e == Error::VerificationFailure
                    &&& sha1_of(work.buf@) != work.hash@
                    &&& final(self).completed == old(self).completed
                    &&& final(self).done_count == old(self).done_count
                    &&& final(self).queue@.len() == old(self).queue@.len() + 1
                    &&& final(self).queue@.subrange(0, old(self).queue@.len() as int) == old(
                        self,
                    ).queue@
                    &&& final(self).queue@.last().same_piece(work)
                    &&& final(self).queue@.last().is_fresh()
                },
            },
    {
        if work.verify() {
            let idx = work.index as usize;
            let res = work.into_result();
            proof {
                lemma_count_trues_update(self.completed@, idx as int);
                lemma_count_trues_bounds(self.completed@.update(idx as int, true));
            }
            self.completed.set(idx, true);
            self.done_count = self.done_count + 1;
            proof {
                assert forall|k: int| 0 <= k < self.queue@.len() implies self.entry_ok(
                    #[trigger] self.queue@[k],
                ) by {
                    assert(old(self).entry_ok(old(self).queue@[k]));
                    if self.queue@[k].index as int == work.index as int {
                        assert(old(self).queued(work.index as int));
                    }
                }
            }
            Ok(res)
        } else {
            let mut w = work;
            w.reset();
            self.requeue(w);
            proof {
                assert(self.queue@.subrange(0, old(self).queue@.len() as int) =~= old(
                    self,
                ).queue@);
            }
            Err(Error::VerificationFailure)
        }
    }
}

proof fn lemma_count_all_false(s: Seq<bool>)
    requires
        forall|i: int| 0 <= i < s.len() ==> !s[i],
    ensures
        count_trues(s) == 0,
    decreases s.len(),
{
    if s.len() > 0 {
        lemma_count_all_false(s.drop_last());
    }
}

/// Once every piece is completed, the queue is empty: the download has
/// produced exactly one result per piece and has nothing left to hand out.
pub proof fn lemma_done_queue_empty(s: Scheduler)
    requires
        s.wf(),
        s.done_count == s.num_pieces(),
    ensures
        s.queue@.len() == 0,
        forall|i: int| 0 <= i < s.num_pieces() ==> s.completed@[i],
{
    lemma_count_trues_full(s.completed@);
    if s.queue@.len() > 0 {
        assert(s.entry_ok(s.queue@[0]));
    }
}

/// Acceptance is unrepeatable: once a piece is completed it is out of the
/// queue, so `pop_work_for` can never hand it out again, no worker can
/// still own it, and `submit_piece` cannot accept it again (it demands an
/// uncompleted piece) — at most one result is ever produced per index.
pub proof fn lemma_accepted_once(s: Scheduler, w: PieceWork)
    requires
        s.wf(),
        (w.index as int) < s.num_pieces(),
        s.completed@[w.index as int],
    ensures
        !s.queued(w.index as int),
        !s.owns(w),
{
    lemma_completed_not_queued(s, w.index as int);
}

/// A completed piece is never in the queue: it cannot be handed out or
/// downloaded again.
pub proof fn lemma_completed_not_queued(s: Scheduler, i: int)
    requires
        s.wf(),
        0 <= i < s.num_pieces(),
        s.completed@[i],
    ensures
        !s.queued(i),
{
    if s.queued(i) {
        let k = choose|k: int| 0 <= k < s.queue@.len() && (#[trigger] s.queue@[k]).index == i;
        assert(s.entry_ok(s.queue@[k]));
    }
}

} // verus!
