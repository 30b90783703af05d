use vstd::prelude::*;
use crate::bytes::copy_bytes;
use crate::error::Error;
use crate::scheduler::Scheduler;

verus! {

/// The descriptor of one torrent, produced externally from the metainfo
/// file: the 20-byte info-hash, total content length, piece length, and
/// the ordered 20-byte hash of every piece.
#[derive(Debug)]
pub struct TorrentFile {
    pub name: String,
    pub announce: String,
    pub info_hash: Vec<u8>,
    pub length: u64,
    pub piece_length: u64,
    pub piece_hashes: Vec<Vec<u8>>,
}

/// Whether descriptor numbers are consistent: a 20-byte info-hash, a
/// positive piece length that a request field can carry, hashes in whole
/// 20-byte groups, and exactly enough pieces to cover the total length.
pub open spec fn valid_descriptor(
    info_hash: Seq<u8>,
    length: u64,
    piece_length: u64,
    pieces: Seq<u8>,
) -> bool {
    let n = pieces.len() as int / 20;
    &&& info_hash.len() == 20
    &&& 0 < piece_length <= 0xffff_ffff
    &&& pieces.len() % 20 == 0
    &&& n <= 0xffff_ffff
    &&& (n == 0 ==> length == 0)
    &&& (n > 0 ==> (n - 1) * (piece_length as int) < length <= n * (piece_length as int))
}

impl TorrentFile {
    /// The shape every constructed descriptor has.
    pub open spec fn wf(self) -> bool {
        &&& self.info_hash@.len() == 20
        &&& 0 < self.piece_length <= 0xffff_ffff
        &&& self.piece_hashes@.len() <= 0xffff_ffff
        &&& (forall|k: int|
            0 <= k < self.piece_hashes@.len() ==> (#[trigger] self.piece_hashes@[k])@.len() == 20)
        &&& (self.piece_hashes@.len() == 0 ==> self.length == 0)
        &&& (self.piece_hashes@.len() > 0 ==> (self.piece_hashes@.len() - 1) * (self.piece_length
            as int) < self.length <= self.piece_hashes@.len() * (self.piece_length as int))
    }

    /// Assembles and validates a descriptor from externally decoded fields;
    /// `pieces` is the concatenation of all piece hashes. Returns the
    /// descriptor exactly when the numbers are consistent.
    pub fn new(
        name: String,
        announce: String,
        info_hash: Vec<u8>,
        length: u64,
        piece_length: u64,
        pieces: &Vec<u8>,
    ) -> (r: Result<TorrentFile, Error>)
        ensures
            match r {
                Ok(t) => {
                    &&& valid_descriptor(info_hash@, length, piece_length, pieces@)
                    &&& t.wf()
                    &&& t.name == name
                    &&& t.announce == announce
                    &&& t.info_hash == info_hash
                    &&& t.length == length
                    &&& t.piece_length == piece_length
                    &&& t.piece_hashes@.len() == pieces@.len() / 20
                    &&& forall|k: int|
                        0 <= k < t.piece_hashes@.len() ==> (#[trigger] t.piece_hashes@[k])@
                            == pieces@.subrange(20 * k, 20 * k + 20)
                },
                Err(e) => {
                    &&& !valid_descriptor(info_hash@, length, piece_length, pieces@)
                    &&& e == Error::ProtocolViolation
                },
            },
    {
        if info_hash.len() != 20 {
            return Err(Error::ProtocolViolation);
        }
        if piece_length == 0 || piece_length > 0xffff_ffff {
            return Err(Error::ProtocolViolation);
        }
        let piece_hashes = match piece_hashes_from_bytes(pieces) {
            Ok(v) => v,
            Err(e) => {
                return Err(e);
            },
        };
        let n = piece_hashes.len() as u64;
        if n > 0xffff_ffff {
            return Err(Error::ProtocolViolation);
        }
        if n == 0 {
            if length != 0 {
                return Err(Error::ProtocolViolation);
            }
        } else {
            proof {
                assert((n as int) * (piece_length as int) < 0x10000000000000000) by (nonlinear_arith)
                    requires
                        0 <= n <= 0xffff_ffff,
                        0 <= piece_length <= 0xffff_ffff,
                ;
                assert((n as int - 1) * (piece_length as int) <= (n as int) * (piece_length as int))
                    by (nonlinear_arith)
                    requires
                        1 <= n,
                        0 <= piece_length,
                ;
            }
            let lo: u128 = (n as u128 - 1) * (piece_length as u128);
            let hi: u128 = (n as u128) * (piece_length as u128);
            if !(lo < length as u128 && length as u128 <= hi) {
                return Err(Error::ProtocolViolation);
            }
        }
        Ok(TorrentFile { name, announce, info_hash, length, piece_length, piece_hashes })
    }

    /// Seeds a scheduler for this descriptor: one queued piece per hash,
    /// ascending from index zero, none completed.
    pub fn make_scheduler(&self) -> (r: Scheduler)
        requires
            self.wf(),
        ensures
            r.wf(),
            r.done_count == 0,
            r.total_length == self.length,
            r.piece_length == self.piece_length,
            r.num_pieces() == self.piece_hashes@.len(),
            forall|k: int|
                0 <= k < r.hashes@.len() ==> (#[trigger] r.hashes@[k])@
                    == self.piece_hashes@[k]@,
            r.queue@.len() == self.piece_hashes@.len(),
            forall|k: int| 0 <= k < r.queue@.len() ==> (#[trigger] r.queue@[k]).index == k,
            forall|i: int| 0 <= i < r.num_pieces() ==> !r.completed@[i],
    {
        let mut hashes: Vec<Vec<u8>> = Vec::new();
        let mut k: usize = 0;
        while k < self.piece_hashes.len()
            invariant
                k <= self.piece_hashes@.len(),
                hashes@.len() == k,
                forall|j: int|
                    0 <= j < k ==> (#[trigger] hashes@[j])@ == self.piece_hashes@[j]@,
            decreases self.piece_hashes@.len() - k,
        {
            let h = copy_bytes(&self.piece_hashes[k]);
            hashes.push(h);
            k = k + 1;
        }
        Scheduler::new(hashes, self.length, self.piece_length as u32)
    }
}

/// Splits the metainfo's concatenated piece-hash bytes into 20-byte hashes.
/// A byte count that is not a multiple of 20 is a protocol violation.
pub fn piece_hashes_from_bytes(pieces: &Vec<u8>) -> (r: Result<Vec<Vec<u8>>, Error>)
    ensures
        match r {
            Ok(v) => {
                &&& pieces@.len() % 20 == 0
                &&& v@.len() == pieces@.len() / 20
                &&& forall|k: int|
                    0 <= k < v@.len() ==> (#[trigger] v@[k])@ == pieces@.subrange(
                        20 * k,
                        20 * k + 20,
                    )
            },
            Err(e) => pieces@.len() % 20 != 0 && e == Error::ProtocolViolation,
        },
{
    if pieces.len() % 20 != 0 {
        return Err(Error::ProtocolViolation);
    }
    let mut v: Vec<Vec<u8>> = Vec::new();
    let mut off: usize = 0;
    while off < pieces.len()
        invariant
            pieces@.len() % 20 == 0,
            off == 20 * v@.len(),
            off <= pieces@.len(),
            forall|j: int|
                0 <= j < v@.len() ==> (#[trigger] v@[j])@ == pieces@.subrange(20 * j, 20 * j + 20),
        decreases pieces@.len() - off,
    {
        proof {
            assert(off as int + 20 <= pieces@.len());
        }
        let h = crate::bytes::copy_range(pieces.as_slice(), off, off + 20);
        v.push(h);
        off = off + 20;
    }
    proof {
        assert(v@.len() == pieces@.len() / 20);
    }
    Ok(v)
}

} // verus!
