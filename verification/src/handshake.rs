use vstd::prelude::*;
use crate::error::Error;
use crate::bytes::{bytes_eq, copy_range};

verus! {

/// The 19 bytes of the protocol name that opens every handshake.
pub open spec fn protocol_name() -> Seq<u8> {
    seq![
        66u8,
        105u8,
        116u8,
        84u8,
        111u8,
        114u8,
        114u8,
        101u8,
        110u8,
        116u8,
        32u8,
        112u8,
        114u8,
        111u8,
        116u8,
        111u8,
        99u8,
        111u8,
        108u8,
    ]
}

/// The connection-opening exchange: a fixed 68-byte layout of protocol-name
/// length byte (19), the protocol name, 8 reserved zero bytes, the 20-byte
/// info-hash and the 20-byte peer-id.
#[derive(Debug, PartialEq)]
pub struct Handshake {
    pub pstr: Vec<u8>,
    pub info_hash: Vec<u8>,
    pub peer_id: Vec<u8>,
}

/// The 68 bytes of a handshake with the given info-hash and peer-id.
pub open spec fn spec_handshake_bytes(info_hash: Seq<u8>, peer_id: Seq<u8>) -> Seq<u8> {
    seq![19u8] + protocol_name() + seq![0u8, 0u8, 0u8, 0u8, 0u8, 0u8, 0u8, 0u8] + info_hash
        + peer_id
}

impl Handshake {
    /// A handshake with the canonical protocol name and 20-byte hash and id.
    pub open spec fn wf(self) -> bool {
        &&& self.pstr@ == protocol_name()
        &&& self.info_hash@.len() == 20
        &&& self.peer_id@.len() == 20
    }

    /// Builds a handshake for this swarm's info-hash under our peer-id.
    pub fn new(info_hash: Vec<u8>, peer_id: Vec<u8>) -> (r: Handshake)
        requires
            info_hash@.len() == 20,
            peer_id@.len() == 20,
        ensures
            r.wf(),
            r.info_hash == info_hash,
            r.peer_id == peer_id,
    {
        let mut pstr: Vec<u8> = Vec::new();
        pstr.push(66);
        pstr.push(105);
        pstr.push(116);
        pstr.push(84);
        pstr.push(111);
        pstr.push(114);
        pstr.push(114);
        pstr.push(101);
        pstr.push(110);
        pstr.push(116);
        pstr.push(32);
        pstr.push(112);
        pstr.push(114);
        pstr.push(111);
        pstr.push(116);
        pstr.push(111);
        pstr.push(99);
        pstr.push(111);
        pstr.push(108);
        proof {
            assert(pstr@ =~= protocol_name());
        }
        Handshake { pstr, info_hash, peer_id }
    }

    /// The 68-byte wire form: length byte 19, protocol name, 8 zero bytes,
    /// info-hash, peer-id.
    pub fn as_bytes(&self) -> (r: Vec<u8>)
        requires
            self.wf(),
        ensures
            r@ == spec_handshake_bytes(self.info_hash@, self.peer_id@),
            r@.len() == 68,
    {
        let mut out: Vec<u8> = Vec::new();
        out.push(19);
        out.extend_from_slice(self.pstr.as_slice());
        let mut k: usize = 0;
        while k < 8
            invariant
                k <= 8,
                out@ == seq![19u8] + protocol_name() + Seq::new(k as nat, |j: int| 0u8),
            decreases 8 - k,
        {
            out.push(0);
            proof {
                assert(out@ =~= seq![19u8] + protocol_name() + Seq::new(
                    (k + 1) as nat,
                    |j: int| 0u8,
                ));
            }
            k = k + 1;
        }
        out.extend_from_slice(self.info_hash.as_slice());
        out.extend_from_slice(self.peer_id.as_slice());
        proof {
            assert(Seq::new(8nat, |j: int| 0u8) =~= seq![0u8, 0u8, 0u8, 0u8, 0u8, 0u8, 0u8, 0u8]);
            assert(out@ =~= spec_handshake_bytes(self.info_hash@, self.peer_id@));
        }
        out
    }

    /// Reads a 68-byte handshake reply. A protocol-name length byte other
    /// than 19 is a protocol violation; otherwise the reply's fields are
    /// taken from their fixed offsets.
    pub fn from_bytes(b: &[u8]) -> (r: Result<Handshake, Error>)
        requires
            b@.len() == 68,
        ensures
            match r {
                Ok(h) => {
                    &&& b@[0] == 19
                    &&& h.pstr@ == b@.subrange(1, 20)
                    &&& h.info_hash@ == b@.subrange(28, 48)
                    &&& h.peer_id@ == b@.subrange(48, 68)
                },
                Err(e) => b@[0] != 19 && e == Error::ProtocolViolation,
            },
    {
        if b[0] != 19 {
            return Err(Error::ProtocolViolation);
        }
        let pstr = copy_range(b, 1, 20);
        let info_hash = copy_range(b, 28, 48);
        let peer_id = copy_range(b, 48, 68);
        Ok(Handshake { pstr, info_hash, peer_id })
    }

    /// The wrong-swarm defense: a reply whose info-hash differs from ours is
    /// a handshake mismatch; its peer-id is otherwise accepted as-is.
    pub fn check_reply(&self, expected_info_hash: &Vec<u8>) -> (r: Result<(), Error>)
        ensures
            match r {
                Ok(()) => self.info_hash@ == expected_info_hash@,
                Err(e) => self.info_hash@ != expected_info_hash@ && e == Error::HandshakeMismatch,
            },
    {
        if bytes_eq(&self.info_hash, expected_info_hash) {
            Ok(())
        } else {
            Err(Error::HandshakeMismatch)
        }
    }
}

/// The byte layout of a handshake: 68 bytes in all, byte 0 is 19, bytes
/// 1..20 the protocol name, bytes 20..28 zero, bytes 28..48 the info-hash,
/// bytes 48..68 the peer-id.
pub proof fn lemma_handshake_layout(info_hash: Seq<u8>, peer_id: Seq<u8>)
    requires
        info_hash.len() == 20,
        peer_id.len() == 20,
    ensures
        spec_handshake_bytes(info_hash, peer_id).len() == 68,
        spec_handshake_bytes(info_hash, peer_id)[0] == 19,
        spec_handshake_bytes(info_hash, peer_id).subrange(1, 20) =~= protocol_name(),
        forall|j: int|
            20 <= j < 28 ==> spec_handshake_bytes(info_hash, peer_id)[j] == 0,
        spec_handshake_bytes(info_hash, peer_id).subrange(28, 48) =~= info_hash,
        spec_handshake_bytes(info_hash, peer_id).subrange(48, 68) =~= peer_id,
{
}

} // verus!
