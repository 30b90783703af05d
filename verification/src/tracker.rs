use vstd::prelude::*;

verus! {

/// The ASCII code of the uppercase hex digit for a nibble.
pub open spec fn hex_upper_digit(x: u8) -> u8 {
    if x < 10 {
        (48 + x) as u8
    } else {
        (55 + x) as u8
    }
}

/// The three bytes `%XX`: the percent-encoding of one byte, uppercase hex.
pub open spec fn pct_of(b: u8) -> Seq<u8> {
    seq![37u8, hex_upper_digit(b / 16), hex_upper_digit(b % 16)]
}

/// Every byte of `s` percent-encoded, in order.
pub open spec fn pct_all(s: Seq<u8>) -> Seq<u8>
    decreases s.len(),
{
    if s.len() == 0 {
        Seq::empty()
    } else {
        pct_of(s[0]) + pct_all(s.skip(1))
    }
}

proof fn lemma_pct_all_push(s: Seq<u8>, x: u8)
    ensures
        pct_all(s.push(x)) == pct_all(s) + pct_of(x),
    decreases s.len(),
{
    if s.len() == 0 {
        assert(s.push(x)[0] == x);
        assert(s.push(x).skip(1) =~= Seq::<u8>::empty());
        assert(pct_all(s.push(x).skip(1)) == Seq::<u8>::empty()) by {
            assert(s.push(x).skip(1).len() == 0);
        }
        assert(pct_all(s) == Seq::<u8>::empty());
        assert(pct_all(s.push(x)) =~= pct_all(s) + pct_of(x));
    } else {
        assert(s.push(x).skip(1) =~= s.skip(1).push(x));
        lemma_pct_all_push(s.skip(1), x);
        assert(pct_all(s.push(x)) =~= pct_all(s) + pct_of(x));
    }
}

/// The unconditional percent-encoding of one byte: `%` then two uppercase
/// hex digits.
fn percent_encode_one(b: u8) -> (r: Vec<u8>)
    ensures
        r@ == pct_of(b),
{
    let hi: u8 = b / 16;
    let lo: u8 = b % 16;
    let mut out: Vec<u8> = Vec::new();
    out.push(37);
    out.push(if hi < 10 {
        48 + hi
    } else {
        55 + hi
    });
    out.push(if lo < 10 {
        48 + lo
    } else {
        55 + lo
    });
    proof {
        assert(out@ =~= pct_of(b));
    }
    out
}

/// Percent-encodes every byte, as the info-hash and peer-id must be in a
/// tracker query.
pub fn percent_encode_all(data: &Vec<u8>) -> (r: Vec<u8>)
    ensures
        r@ == pct_all(data@),
{
    let mut out: Vec<u8> = Vec::new();
    let mut i: usize = 0;
    while i < data.len()
        invariant
            i <= data@.len(),
            out@ == pct_all(data@.subrange(0, i as int)),
        decreases data@.len() - i,
    {
        let mut enc = percent_encode_one(data[i]);
        out.append(&mut enc);
        proof {
            assert(data@.subrange(0, i + 1 as int) =~= data@.subrange(0, i as int).push(
                data@[i as int],
            ));
            lemma_pct_all_push(data@.subrange(0, i as int), data@[i as int]);
        }
        i = i + 1;
    }
    proof {
        assert(data@.subrange(0, data@.len() as int) =~= data@);
    }
    out
}

/// The decimal digits of `n`, most significant first, no leading zeros
/// (a single zero for zero).
pub open spec fn dec_digits(n: nat) -> Seq<u8>
    decreases n,
{
    if n < 10 {
        seq![(48 + n) as u8]
    } else {
        dec_digits(n / 10) + seq![(48 + n % 10) as u8]
    }
}

/// Appends `n` in decimal.
pub fn push_decimal(out: &mut Vec<u8>, n: u64)
    ensures
        final(out)@ == old(out)@ + dec_digits(n as nat),
    decreases n,
{
    if n < 10 {
        out.push((48 + n) as u8);
        proof {
            assert(out@ =~= old(out)@ + dec_digits(n as nat));
        }
    } else {
        push_decimal(out, n / 10);
        out.push((48 + (n % 10)) as u8);
        proof {
            assert(out@ =~= old(out)@ + dec_digits(n as nat));
        }
    }
}

/// The bytes of `?info_hash=`.
pub open spec fn lit_info_hash() -> Seq<u8> {
    seq![63u8, 105u8, 110u8, 102u8, 111u8, 95u8, 104u8, 97u8, 115u8, 104u8, 61u8]
}

/// The bytes of `&peer_id=`.
pub open spec fn lit_peer_id() -> Seq<u8> {
    seq![38u8, 112u8, 101u8, 101u8, 114u8, 95u8, 105u8, 100u8, 61u8]
}

/// The bytes of `&port=`.
pub open spec fn lit_port() -> Seq<u8> {
    seq![38u8, 112u8, 111u8, 114u8, 116u8, 61u8]
}

/// The bytes of `&uploaded=0&downloaded=0&compact=1&left=`.
pub open spec fn lit_fixed_params() -> Seq<u8> {
    seq![
        38u8,
        117u8,
        112u8,
        108u8,
        111u8,
        97u8,
        100u8,
        101u8,
        100u8,
        61u8,
        48u8,
        38u8,
        100u8,
        111u8,
        119u8,
        110u8,
        108u8,
        111u8,
        97u8,
        100u8,
        101u8,
        100u8,
        61u8,
        48u8,
        38u8,
        99u8,
        111u8,
        109u8,
        112u8,
        97u8,
        99u8,
        116u8,
        61u8,
        49u8,
        38u8,
        108u8,
        101u8,
        102u8,
        116u8,
        61u8,
    ]
}

fn push_lit_info_hash(out: &mut Vec<u8>)
    ensures
        final(out)@ == old(out)@ + lit_info_hash(),
{
    out.push(63);
    out.push(105);
    out.push(110);
    out.push(102);
    out.push(111);
    out.push(95);
    out.push(104);
    out.push(97);
    out.push(115);
    out.push(104);
    out.push(61);
    proof {
        assert(out@ =~= old(out)@ + lit_info_hash());
    }
}

fn push_lit_peer_id(out: &mut Vec<u8>)
    ensures
        final(out)@ == old(out)@ + lit_peer_id(),
{
    out.push(38);
    out.push(112);
    out.push(101);
    out.push(101);
    out.push(114);
    out.push(95);
    out.push(105);
    out.push(100);
    out.push(61);
    proof {
        assert(out@ =~= old(out)@ + lit_peer_id());
    }
}

fn push_lit_port(out: &mut Vec<u8>)
    ensures
        final(out)@ == old(out)@ + lit_port(),
{
    out.push(38);
    out.push(112);
    out.push(111);
    out.push(114);
    out.push(116);
    out.push(61);
    proof {
        assert(out@ =~= old(out)@ + lit_port());
    }
}

fn push_lit_fixed_params(out: &mut Vec<u8>)
    ensures
        final(out)@ == old(out)@ + lit_fixed_params(),
{
    out.push(38);
    out.push(117);
    out.push(112);
    out.push(108);
    out.push(111);
    out.push(97);
    out.push(100);
    out.push(101);
    out.push(100);
    out.push(61);
    out.push(48);
    out.push(38);
    out.push(100);
    out.push(111);
    out.push(119);
    out.push(110);
    out.push(108);
    out.push(111);
    out.push(97);
    out.push(100);
    out.push(101);
    out.push(100);
    out.push(61);
    out.push(48);
    out.push(38);
    out.push(99);
    out.push(111);
    out.push(109);
    out.push(112);
    out.push(97);
    out.push(99);
    out.push(116);
    out.push(61);
    out.push(49);
    out.push(38);
    out.push(108);
    out.push(101);
    out.push(102);
    out.push(116);
    out.push(61);
    proof {
        assert(out@ =~= old(out)@ + lit_fixed_params());
    }
}

/// The full byte string of a tracker announce request: the announce URL
/// with the percent-encoded info-hash and peer-id, our listen port, zero
/// uploaded and downloaded, the compact flag, and how many bytes are left.
pub open spec fn spec_tracker_query(
    announce: Seq<u8>,
    info_hash: Seq<u8>,
    peer_id: Seq<u8>,
    port: u16,
    left: u64,
) -> Seq<u8> {
    announce + lit_info_hash() + pct_all(info_hash) + lit_peer_id() + pct_all(peer_id)
        + lit_port() + dec_digits(port as nat) + lit_fixed_params() + dec_digits(left as nat)
}

/// Builds the announce request URL for a tracker, byte for byte.
pub fn build_tracker_query(
    announce: &Vec<u8>,
    info_hash: &Vec<u8>,
    peer_id: &Vec<u8>,
    port: u16,
    left: u64,
) -> (r: Vec<u8>)
    ensures
        r@ == spec_tracker_query(announce@, info_hash@, peer_id@, port, left),
{
    let mut out: Vec<u8> = Vec::new();
    let mut announce_bytes = crate::bytes::copy_bytes(announce);
    out.append(&mut announce_bytes);
    push_lit_info_hash(&mut out);
    let mut ih = percent_encode_all(info_hash);
    out.append(&mut ih);
    push_lit_peer_id(&mut out);
    let mut pid = percent_encode_all(peer_id);
    out.append(&mut pid);
    push_lit_port(&mut out);
    push_decimal(&mut out, port as u64);
    push_lit_fixed_params(&mut out);
    push_decimal(&mut out, left);
    proof {
        assert(out@ =~= spec_tracker_query(announce@, info_hash@, peer_id@, port, left));
    }
    out
}

/// Relies on rand::random: 20 bytes drawn from the thread-local generator;
/// nothing is promised of their values.
#[verifier::external_body]
fn random_bytes_20() -> (r: Vec<u8>)
    ensures
        r@.len() == 20,
{
    rand::random::<[u8; 20]>().to_vec()
}

/// A fresh 20-byte peer-id for this run of the client.
pub fn fresh_peer_id() -> (r: Vec<u8>)
    ensures
        r@.len() == 20,
{
    random_bytes_20()
}

} // verus!
