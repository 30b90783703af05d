use vstd::prelude::*;
use crate::error::Error;
use crate::bytes::{spec_u32_be, spec_be_u32, lemma_u32_be_round_trip, u32_from_be, push_u32_be, slice_tail_to_vec};

verus! {

/// A peer-wire message. On the wire each message is a frame: a 4-byte
/// big-endian length prefix `L` counting the bytes that follow, then (when
/// `L > 0`) one message-id byte and the payload. `L == 0` encodes KeepAlive.
#[derive(Debug, PartialEq)]
pub enum Message {
    KeepAlive,
    Choke,
    Unchoke,
    Interested,
    NotInterested,
    Have(u32),
    Bitfield(Vec<u8>),
    Request(u32, u32, u32),
    Piece(u32, u32, Vec<u8>),
    Cancel,
}

/// The mathematical model of a message: payloads as byte sequences.
pub enum MessageView {
    KeepAlive,
    Choke,
    Unchoke,
    Interested,
    NotInterested,
    Have(u32),
    Bitfield(Seq<u8>),
    Request(u32, u32, u32),
    Piece(u32, u32, Seq<u8>),
    Cancel,
}

impl View for Message {
    type V = MessageView;

    open spec fn view(&self) -> MessageView {
        match self {
            Message::KeepAlive => MessageView::KeepAlive,
            Message::Choke => MessageView::Choke,
            Message::Unchoke => MessageView::Unchoke,
            Message::Interested => MessageView::Interested,
            Message::NotInterested => MessageView::NotInterested,
            Message::Have(i) => MessageView::Have(*i),
            Message::Bitfield(b) => MessageView::Bitfield(b@),
            Message::Request(i, o, l) => MessageView::Request(*i, *o, *l),
            Message::Piece(i, o, blk) => MessageView::Piece(*i, *o, blk@),
            Message::Cancel => MessageView::Cancel,
        }
    }
}

pub const MSG_CHOKE: u8 = 0;

pub const MSG_UNCHOKE: u8 = 1;

pub const MSG_INTERESTED: u8 = 2;

pub const MSG_NOT_INTERESTED: u8 = 3;

pub const MSG_HAVE: u8 = 4;

pub const MSG_BITFIELD: u8 = 5;

pub const MSG_REQUEST: u8 = 6;

pub const MSG_PIECE: u8 = 7;

pub const MSG_CANCEL: u8 = 8;

impl MessageView {
    /// A message small enough that its frame's length prefix fits in 32 bits
    /// and its frame's byte count fits in a `usize`.
    pub open spec fn wf(self) -> bool {
        match self {
            MessageView::Bitfield(b) => b.len() + 13 <= 0xffff_ffff,
            MessageView::Piece(_, _, blk) => blk.len() + 13 <= 0xffff_ffff,
            _ => true,
        }
    }
}

/// The frame that carries `m`: length prefix, id byte, payload.
pub open spec fn spec_encode(m: MessageView) -> Seq<u8> {
    match m {
        MessageView::KeepAlive => spec_u32_be(0),
        MessageView::Choke => spec_u32_be(1) + seq![MSG_CHOKE],
        MessageView::Unchoke => spec_u32_be(1) + seq![MSG_UNCHOKE],
        MessageView::Interested => spec_u32_be(1) + seq![MSG_INTERESTED],
        MessageView::NotInterested => spec_u32_be(1) + seq![MSG_NOT_INTERESTED],
        MessageView::Have(i) => spec_u32_be(5) + seq![MSG_HAVE] + spec_u32_be(i),
        MessageView::Bitfield(b) => spec_u32_be((1 + b.len()) as u32) + seq![MSG_BITFIELD] + b,
        MessageView::Request(i, o, l) => spec_u32_be(13) + seq![MSG_REQUEST] + spec_u32_be(i)
            + spec_u32_be(o) + spec_u32_be(l),
        MessageView::Piece(i, o, blk) => spec_u32_be((9 + blk.len()) as u32) + seq![MSG_PIECE]
            + spec_u32_be(i) + spec_u32_be(o) + blk,
        MessageView::Cancel => spec_u32_be(1) + seq![MSG_CANCEL],
    }
}

/// Dispatch on the id byte of a non-empty frame's body: `p` is the payload
/// after the id. An unknown id or a fixed-width payload of the wrong length
/// parses to nothing.
pub open spec fn spec_parse_body(id: u8, p: Seq<u8>) -> Option<MessageView> {
    if id == MSG_CHOKE {
        Some(MessageView::Choke)
    } else if id == MSG_UNCHOKE {
        Some(MessageView::Unchoke)
    } else if id == MSG_INTERESTED {
        Some(MessageView::Interested)
    } else if id == MSG_NOT_INTERESTED {
        Some(MessageView::NotInterested)
    } else if id == MSG_HAVE {
        if p.len() == 4 {
            Some(MessageView::Have(spec_be_u32(p[0], p[1], p[2], p[3])))
        } else {
            None
        }
    } else if id == MSG_BITFIELD {
        Some(MessageView::Bitfield(p))
    } else if id == MSG_REQUEST {
        if p.len() == 12 {
            Some(
                MessageView::Request(
                    spec_be_u32(p[0], p[1], p[2], p[3]),
                    spec_be_u32(p[4], p[5], p[6], p[7]),
                    spec_be_u32(p[8], p[9], p[10], p[11]),
                ),
            )
        } else {
            None
        }
    } else if id == MSG_PIECE {
        if p.len() >= 8 {
            Some(
                MessageView::Piece(
                    spec_be_u32(p[0], p[1], p[2], p[3]),
                    spec_be_u32(p[4], p[5], p[6], p[7]),
                    p.skip(8),
                ),
            )
        } else {
            None
        }
    } else if id == MSG_CANCEL {
        Some(MessageView::Cancel)
    } else {
        None
    }
}

/// The message carried by a complete frame, or nothing when the frame is
/// malformed: shorter than its prefix demands, longer, or undecodable.
pub open spec fn spec_decode(frame: Seq<u8>) -> Option<MessageView> {
    if frame.len() < 4 {
        None
    } else {
        let l = spec_be_u32(frame[0], frame[1], frame[2], frame[3]) as int;
        if frame.len() != 4 + l {
            None
        } else if l == 0 {
            Some(MessageView::KeepAlive)
        } else {
            spec_parse_body(frame[4], frame.skip(5))
        }
    }
}

impl Message {
    /// Dispatches on a message id and its payload, as `decode` does after
    /// stripping the frame prefix. An unknown id or a wrong-length
    /// fixed-width payload is a protocol violation, never a crash.
    pub fn new(id: u8, payload: &[u8]) -> (r: Result<Message, Error>)
        ensures
            match r {
                Ok(m) => spec_parse_body(id, payload@) == Some(m@),
                Err(e) => spec_parse_body(id, payload@) is None && e == Error::ProtocolViolation,
            },
    {
        if id == MSG_CHOKE {
            Ok(Message::Choke)
        } else if id == MSG_UNCHOKE {
            Ok(Message::Unchoke)
        } else if id == MSG_INTERESTED {
            Ok(Message::Interested)
        } else if id == MSG_NOT_INTERESTED {
            Ok(Message::NotInterested)
        } else if id == MSG_HAVE {
            if payload.len() == 4 {
                Ok(Message::Have(u32_from_be(payload[0], payload[1], payload[2], payload[3])))
            } else {
                Err(Error::ProtocolViolation)
            }
        } else if id == MSG_BITFIELD {
            let b = slice_tail_to_vec(payload, 0);
            proof {
                assert(b@ =~= payload@);
            }
            Ok(Message::Bitfield(b))
        } else if id == MSG_REQUEST {
            if payload.len() == 12 {
                Ok(
                    Message::Request(
                        u32_from_be(payload[0], payload[1], payload[2], payload[3]),
                        u32_from_be(payload[4], payload[5], payload[6], payload[7]),
                        u32_from_be(payload[8], payload[9], payload[10], payload[11]),
                    ),
                )
            } else {
                Err(Error::ProtocolViolation)
            }
        } else if id == MSG_PIECE {
            if payload.len() >= 8 {
                Ok(
                    Message::Piece(
                        u32_from_be(payload[0], payload[1], payload[2], payload[3]),
                        u32_from_be(payload[4], payload[5], payload[6], payload[7]),
                        slice_tail_to_vec(payload, 8),
                    ),
                )
            } else {
                Err(Error::ProtocolViolation)
            }
        } else if id == MSG_CANCEL {
            Ok(Message::Cancel)
        } else {
            Err(Error::ProtocolViolation)
        }
    }

    /// Builds the wire frame for this message.
    pub fn serialize(&self) -> (r: Vec<u8>)
        requires
            self@.wf(),
        ensures
            r@ == spec_encode(self@),
    {
        let mut out: Vec<u8> = Vec::new();
        match self {
            Message::KeepAlive => {
                push_u32_be(&mut out, 0);
            },
            Message::Choke => {
                push_u32_be(&mut out, 1);
                out.push(MSG_CHOKE);
            },
            Message::Unchoke => {
                push_u32_be(&mut out, 1);
                out.push(MSG_UNCHOKE);
            },
            Message::Interested => {
                push_u32_be(&mut out, 1);
                out.push(MSG_INTERESTED);
            },
            Message::NotInterested => {
                push_u32_be(&mut out, 1);
                out.push(MSG_NOT_INTERESTED);
            },
            Message::Have(i) => {
                push_u32_be(&mut out, 5);
                out.push(MSG_HAVE);
                push_u32_be(&mut out, *i);
            },
            Message::Bitfield(b) => {
                push_u32_be(&mut out, (b.len() + 1) as u32);
                out.push(MSG_BITFIELD);
                out.extend_from_slice(b.as_slice());
            },
            Message::Request(i, o, l) => {
                push_u32_be(&mut out, 13);
                out.push(MSG_REQUEST);
                push_u32_be(&mut out, *i);
                push_u32_be(&mut out, *o);
                push_u32_be(&mut out, *l);
            },
            Message::Piece(i, o, blk) => {
                push_u32_be(&mut out, (blk.len() + 9) as u32);
                out.push(MSG_PIECE);
                push_u32_be(&mut out, *i);
                push_u32_be(&mut out, *o);
                out.extend_from_slice(blk.as_slice());
            },
            Message::Cancel => {
                push_u32_be(&mut out, 1);
                out.push(MSG_CANCEL);
            },
        }
        proof {
            assert(out@ =~= spec_encode(self@));
        }
        out
    }

    /// Decodes a complete frame: length prefix, then id byte and payload.
    /// A frame whose byte count disagrees with its prefix, or whose body
    /// does not parse, is a protocol violation.
    pub fn decode(frame: &[u8]) -> (r: Result<Message, Error>)
        ensures
            match r {
                Ok(m) => spec_decode(frame@) == Some(m@),
                Err(e) => spec_decode(frame@) is None && e == Error::ProtocolViolation,
            },
    {
        if frame.len() < 4 {
            return Err(Error::ProtocolViolation);
        }
        let l = u32_from_be(frame[0], frame[1], frame[2], frame[3]);
        if (frame.len() as u64) != 4u64 + (l as u64) {
            return Err(Error::ProtocolViolation);
        }
        if l == 0 {
            return Ok(Message::KeepAlive);
        }
        let payload = slice_tail_to_vec(frame, 5);
        Message::new(frame[4], payload.as_slice())
    }
}

/// Round trip: the frame built for any well-formed message decodes back to
/// exactly that message; the zero-length frame decodes to KeepAlive.
pub proof fn lemma_codec_round_trip(m: MessageView)
    requires
        m.wf(),
    ensures
        spec_decode(spec_encode(m)) == Some(m),
{
    let e = spec_encode(m);
    match m {
        MessageView::KeepAlive => {
            lemma_u32_be_round_trip(0);
        },
        MessageView::Choke => {
            lemma_u32_be_round_trip(1);
        },
        MessageView::Unchoke => {
            lemma_u32_be_round_trip(1);
        },
        MessageView::Interested => {
            lemma_u32_be_round_trip(1);
        },
        MessageView::NotInterested => {
            lemma_u32_be_round_trip(1);
        },
        MessageView::Have(i) => {
            lemma_u32_be_round_trip(5);
            lemma_u32_be_round_trip(i);
            assert(e.skip(5) =~= spec_u32_be(i));
        },
        MessageView::Bitfield(b) => {
            lemma_u32_be_round_trip((1 + b.len()) as u32);
            assert(e.skip(5) =~= b);
        },
        MessageView::Request(i, o, l) => {
            lemma_u32_be_round_trip(13);
            lemma_u32_be_round_trip(i);
            lemma_u32_be_round_trip(o);
            lemma_u32_be_round_trip(l);
            let p = e.skip(5);
            assert(p =~= spec_u32_be(i) + spec_u32_be(o) + spec_u32_be(l));
            assert(p[0] == spec_u32_be(i)[0] && p[1] == spec_u32_be(i)[1] && p[2] == spec_u32_be(
                i,
            )[2] && p[3] == spec_u32_be(i)[3]);
            assert(p[4] == spec_u32_be(o)[0] && p[5] == spec_u32_be(o)[1] && p[6] == spec_u32_be(
                o,
            )[2] && p[7] == spec_u32_be(o)[3]);
            assert(p[8] == spec_u32_be(l)[0] && p[9] == spec_u32_be(l)[1] && p[10] == spec_u32_be(
                l,
            )[2] && p[11] == spec_u32_be(l)[3]);
        },
        MessageView::Piece(i, o, blk) => {
            lemma_u32_be_round_trip((9 + blk.len()) as u32);
            lemma_u32_be_round_trip(i);
            lemma_u32_be_round_trip(o);
            let p = e.skip(5);
            assert(p =~= spec_u32_be(i) + spec_u32_be(o) + blk);
            assert(p[0] == spec_u32_be(i)[0] && p[1] == spec_u32_be(i)[1] && p[2] == spec_u32_be(
                i,
            )[2] && p[3] == spec_u32_be(i)[3]);
            assert(p[4] == spec_u32_be(o)[0] && p[5] == spec_u32_be(o)[1] && p[6] == spec_u32_be(
                o,
            )[2] && p[7] == spec_u32_be(o)[3]);
            assert(p.skip(8) =~= blk);
        },
        MessageView::Cancel => {
            lemma_u32_be_round_trip(1);
        },
    }
}

} // verus!
