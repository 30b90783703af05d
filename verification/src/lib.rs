//! A verified BitTorrent peer-wire engine: bitfields, wire-message framing,
//! handshakes, piece scheduling with SHA-1 verification, and the per-peer
//! session state machine that drives a download.

pub mod bitfield;
pub mod bytes;
pub mod error;
pub mod handshake;
pub mod message;
pub mod piece;
pub mod scheduler;
pub mod peer;
pub mod session;
pub mod torrent;
pub mod tracker;

pub use bitfield::Bitfield;
pub use error::Error;
pub use handshake::Handshake;
pub use message::Message;
pub use peer::Peer;
pub use piece::{PieceResult, PieceWork, Progress};
pub use scheduler::Scheduler;
pub use session::{PeerSession, WorkerStep};
pub use torrent::TorrentFile;
