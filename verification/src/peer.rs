use vstd::prelude::*;
use crate::bytes::copy_range;
use crate::error::Error;

verus! {

/// A candidate peer: an IPv4 address held as its four octets, and a port.
#[derive(Debug, PartialEq, Clone)]
pub struct Peer {
    pub ip: [u8; 4],
    pub port: u16,
}

/// The port encoded big-endian in two bytes.
pub open spec fn spec_port(hi: u8, lo: u8) -> u16 {
    (hi as u16) << 8u16 | (lo as u16)
}

impl Peer {
    /// Reads one peer from a 6-byte group of a compact peer list: four
    /// address octets, then the port, big-endian.
    pub fn from_bytes(b: &[u8]) -> (r: Peer)
        requires
            b@.len() == 6,
        ensures
            r.ip@ =~= b@.subrange(0, 4),
            r.port == spec_port(b@[4], b@[5]),
    {
        let ip: [u8; 4] = [b[0], b[1], b[2], b[3]];
        let port: u16 = (b[4] as u16) << 8u16 | (b[5] as u16);
        Peer { ip, port }
    }

    /// Decodes a compact peer list: 6 bytes per peer. A byte count that is
    /// not a multiple of 6 is a protocol violation.
    pub fn vec_from_bytes(bytes: &[u8]) -> (r: Result<Vec<Peer>, Error>)
        ensures
            match r {
                Ok(v) => {
                    &&& bytes@.len() % 6 == 0
                    &&& v@.len() == bytes@.len() / 6
                    &&& forall|k: int|
                        0 <= k < v@.len() ==> {
                            let p = #[trigger] v@[k];
                            &&& p.ip@ =~= bytes@.subrange(6 * k, 6 * k + 4)
                            &&& p.port == spec_port(bytes@[6 * k + 4], bytes@[6 * k + 5])
                        }
                },
                Err(e) => bytes@.len() % 6 != 0 && e == Error::ProtocolViolation,
            },
    {
        if bytes.len() % 6 != 0 {
            return Err(Error::ProtocolViolation);
        }
        let mut v: Vec<Peer> = Vec::new();
        let mut off: usize = 0;
        while off < bytes.len()
            invariant
                bytes@.len() % 6 == 0,
                off == 6 * v@.len(),
                off <= bytes@.len(),
                forall|j: int|
                    0 <= j < v@.len() ==> {
                        let p = #[trigger] v@[j];
                        &&& p.ip@ =~= bytes@.subrange(6 * j, 6 * j + 4)
                        &&& p.port == spec_port(bytes@[6 * j + 4], bytes@[6 * j + 5])
                    },
            decreases bytes@.len() - off,
        {
            proof {
                assert(off as int + 6 <= bytes@.len());
            }
            let chunk = copy_range(bytes, off, off + 6);
            let p = Peer::from_bytes(chunk.as_slice());
            v.push(p);
            off = off + 6;
        }
        proof {
            assert(v@.len() == bytes@.len() / 6);
        }
        Ok(v)
    }
}

} // verus!
