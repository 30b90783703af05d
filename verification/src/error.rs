use vstd::prelude::*;

verus! {

/// Failure taxonomy of the engine. Every per-peer failure is recoverable:
/// the coordinator drops the offending session and requeues its work. Only
/// `AllPeersExhausted` with pieces still missing is terminal.
#[derive(Clone, Copy, Debug, PartialEq, Eq, Structural)]
pub enum Error {
    /// Opening the TCP connection did not finish within the bound.
    ConnectTimeout,
    /// The peer refused the TCP connection.
    ConnectRefused,
    /// The handshake reply carried a different info-hash.
    HandshakeMismatch,
    /// A malformed frame, an unknown message id, or an out-of-protocol
    /// message.
    ProtocolViolation,
    /// An assembled piece hashed to something other than its expected hash.
    VerificationFailure,
    /// The connection broke or a read timed out mid-transfer.
    IoError,
    /// The peer directory produced no peers at all.
    NoPeers,
    /// Every peer was dropped while pieces were still missing.
    AllPeersExhausted,
}

} // verus!
