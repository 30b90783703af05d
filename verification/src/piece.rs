use vstd::prelude::*;
use crate::bytes::bytes_eq;
use crate::error::Error;
use sha1::Digest;

verus! {

/// Recommended size of one block request.
pub const BLOCK_SIZE: u32 = 16384;

/// Recommended bound on outstanding block requests per piece.
pub const MAX_BACKLOG: u32 = 5;

/// The 20-byte SHA-1 digest of a byte sequence.
pub uninterp spec fn sha1_of(data: Seq<u8>) -> Seq<u8>;

/// Relies on sha1's `Sha1` through the `Digest` trait: a 20-byte digest
/// that depends on the input bytes alone.
#[verifier::external_body]
fn sha1_digest(data: &Vec<u8>) -> (r: Vec<u8>)
    ensures
        r@ == sha1_of(data@),
        r@.len() == 20,
{
    sha1::Sha1::digest(data.as_slice()).to_vec()
}

/// One piece to fetch: its index, expected byte length and expected hash,
/// plus the buffer assembled so far and the request bookkeeping.
#[derive(Debug)]
pub struct PieceWork {
    pub index: u32,
    pub length: u32,
    pub hash: Vec<u8>,
    pub buf: Vec<u8>,
    pub requested: u32,
    pub backlog: u32,
}

/// A fully downloaded piece whose bytes hash to the expected hash.
#[derive(Debug)]
pub struct PieceResult {
    pub index: u32,
    pub buf: Vec<u8>,
}

impl PieceWork {
    /// A 20-byte expected hash; the assembled buffer never exceeds the
    /// expected piece length, and no more than the whole piece is requested.
    pub open spec fn wf(self) -> bool {
        &&& self.hash@.len() == 20
        &&& self.buf@.len() <= self.length
        &&& self.requested <= self.length
    }

    /// Nothing assembled, nothing requested, nothing in flight.
    pub open spec fn is_fresh(self) -> bool {
        self.buf@.len() == 0 && self.requested == 0 && self.backlog == 0
    }

    /// The whole piece has been assembled.
    pub open spec fn spec_complete(self) -> bool {
        self.buf@.len() == self.length
    }

    /// Same identity: index, expected length and expected hash.
    pub open spec fn same_piece(self, other: PieceWork) -> bool {
        self.index == other.index && self.length == other.length && self.hash@ == other.hash@
    }

    pub fn new(index: u32, length: u32, hash: Vec<u8>) -> (r: PieceWork)
        requires
            hash@.len() == 20,
        ensures
            r.wf(),
            r.is_fresh(),
            r.index == index,
            r.length == length,
            r.hash == hash,
    {
        PieceWork { index, length, hash, buf: Vec::new(), requested: 0, backlog: 0 }
    }

    /// Discards all progress, keeping the piece's identity: the whole-piece
    /// retry on choke, verification failure, or peer loss.
    pub fn reset(&mut self)
        ensures
            final(self).wf() == (old(self).hash@.len() == 20),
            final(self).is_fresh(),
            final(self).same_piece(*old(self)),
            final(self).hash == old(self).hash,
    {
        self.buf.clear();
        self.requested = 0;
        self.backlog = 0;
    }

    pub fn is_complete(&self) -> (r: bool)
        ensures
            r == self.spec_complete(),
    {
        self.buf.len() as u64 == self.length as u64
    }

    /// Whether another block request may be pipelined now.
    pub fn needs_request(&self) -> (r: bool)
        ensures
            r == (self.requested < self.length && self.backlog < MAX_BACKLOG),
    {
        self.requested < self.length && self.backlog < MAX_BACKLOG
    }

    /// Claims the next block to request: offset right after what has been
    /// requested so far, a full block or whatever remains of the piece.
    /// Returns (piece index, begin offset, block length).
    pub fn next_request(&mut self) -> (r: (u32, u32, u32))
        requires
            old(self).wf(),
            old(self).requested < old(self).length,
            old(self).backlog < MAX_BACKLOG,
        ensures
            final(self).wf(),
            r.0 == old(self).index,
            r.1 == old(self).requested,
            r.2 == if old(self).length - old(self).requested < BLOCK_SIZE {
                (old(self).length - old(self).requested) as u32
            } else {
                BLOCK_SIZE
            },
            r.2 > 0,
            final(self).requested == old(self).requested + r.2,
            final(self).backlog == old(self).backlog + 1,
            final(self).same_piece(*old(self)),
            final(self).hash == old(self).hash,
            final(self).buf == old(self).buf,
    {
        let remaining = self.length - self.requested;
        let block_len = if remaining < BLOCK_SIZE {
            remaining
        } else {
            BLOCK_SIZE
        };
        let begin = self.requested;
        self.requested = self.requested + block_len;
        self.backlog = self.backlog + 1;
        (self.index, begin, block_len)
    }

    /// Appends a received block at the recorded offset. A block whose offset
    /// is not the next write offset, or which would overrun the expected
    /// piece length, is a protocol violation and changes nothing.
    pub fn absorb_block(&mut self, begin: u32, block: &Vec<u8>) -> (r: Result<(), Error>)
        requires
            old(self).wf(),
        ensures
            final(self).wf(),
            final(self).same_piece(*old(self)),
            final(self).hash == old(self).hash,
            match r {
                Ok(()) => {
                    &&& begin == old(self).buf@.len()
                    &&& old(self).buf@.len() + block@.len() <= old(self).length
                    &&& final(self).buf@ == old(self).buf@ + block@
                    &&& final(self).requested == old(self).requested
                    &&& final(self).backlog == if old(self).backlog > 0 {
                        (old(self).backlog - 1) as u32
                    } else {
                        0u32
                    }
                },
                Err(e) => {
                    &&& e == Error::ProtocolViolation
                    &&& (begin != old(self).buf@.len() || old(self).buf@.len() + block@.len()
                        > old(self).length)
                    &&& *final(self) == *old(self)
                },
            },
    {
        if (begin as u64) != (self.buf.len() as u64) {
            return Err(Error::ProtocolViolation);
        }
        if (block.len() as u64) > (self.length as u64) - (self.buf.len() as u64) {
            return Err(Error::ProtocolViolation);
        }
        self.buf.extend_from_slice(block.as_slice());
        if self.backlog > 0 {
            self.backlog = self.backlog - 1;
        }
        Ok(())
    }

    /// The hash check that gates acceptance: computes the SHA-1 of the
    /// assembled buffer and compares it to the expected hash.
    pub fn verify(&self) -> (r: bool)
        ensures
            r == (sha1_of(self.buf@) == self.hash@),
    {
        let digest = sha1_digest(&self.buf);
        bytes_eq(&digest, &self.hash)
    }

    /// Turns a complete, hash-checked piece into its result.
    pub fn into_result(self) -> (r: PieceResult)
        requires
            self.spec_complete(),
            sha1_of(self.buf@) == self.hash@,
        ensures
            r.index == self.index,
            r.buf == self.buf,
            r.buf@.len() == self.length,
            sha1_of(r.buf@) == self.hash@,
    {
        PieceResult { index: self.index, buf: self.buf }
    }
}

/// Running counters of a single download in flight.
#[derive(Debug)]
pub struct Progress {
    pub index: u64,
    pub buf: Vec<u8>,
    pub downloaded: u64,
    pub requested: u64,
    pub backlog: u64,
}

impl Progress {
    /// The starting state: everything at zero, nothing buffered.
    pub fn new() -> (r: Progress)
        ensures
            r.index == 0,
            r.buf@.len() == 0,
            r.downloaded == 0,
            r.requested == 0,
            r.backlog == 0,
    {
        Progress { index: 0, buf: Vec::new(), downloaded: 0, requested: 0, backlog: 0 }
    }
}

} // verus!
