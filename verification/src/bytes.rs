use vstd::prelude::*;

verus! {

/// The four big-endian bytes of `x`, most significant first.
pub open spec fn spec_u32_be(x: u32) -> Seq<u8> {
    seq![
        ((x >> 24u32) & 0xffu32) as u8,
        ((x >> 16u32) & 0xffu32) as u8,
        ((x >> 8u32) & 0xffu32) as u8,
        (x & 0xffu32) as u8,
    ]
}

/// The `u32` whose big-endian bytes are `b0 b1 b2 b3`.
pub open spec fn spec_be_u32(b0: u8, b1: u8, b2: u8, b3: u8) -> u32 {
    (b0 as u32) << 24u32 | (b1 as u32) << 16u32 | (b2 as u32) << 8u32 | (b3 as u32)
}

proof fn lemma_be_inverse(x: u32)
    by (bit_vector)
    ensures
        ((((x >> 24u32) & 0xffu32) as u8) as u32) << 24u32 | ((((x >> 16u32) & 0xffu32) as u8)
            as u32) << 16u32 | ((((x >> 8u32) & 0xffu32) as u8) as u32) << 8u32 | (((x & 0xffu32)
            as u8) as u32) == x,
{
}

proof fn lemma_bytes_inverse(b0: u8, b1: u8, b2: u8, b3: u8)
    by (bit_vector)
    ensures
        ((((b0 as u32) << 24u32 | (b1 as u32) << 16u32 | (b2 as u32) << 8u32 | (b3 as u32))
            >> 24u32) & 0xffu32) as u8 == b0,
        ((((b0 as u32) << 24u32 | (b1 as u32) << 16u32 | (b2 as u32) << 8u32 | (b3 as u32))
            >> 16u32) & 0xffu32) as u8 == b1,
        ((((b0 as u32) << 24u32 | (b1 as u32) << 16u32 | (b2 as u32) << 8u32 | (b3 as u32))
            >> 8u32) & 0xffu32) as u8 == b2,
        (((b0 as u32) << 24u32 | (b1 as u32) << 16u32 | (b2 as u32) << 8u32 | (b3 as u32))
            & 0xffu32) as u8 == b3,
{
}

/// `spec_be_u32` undoes `spec_u32_be`.
pub proof fn lemma_u32_be_round_trip(x: u32)
    ensures
        spec_be_u32(spec_u32_be(x)[0], spec_u32_be(x)[1], spec_u32_be(x)[2], spec_u32_be(x)[3])
            == x,
{
    lemma_be_inverse(x);
}

/// `spec_u32_be` undoes `spec_be_u32`.
pub proof fn lemma_be_u32_round_trip(b0: u8, b1: u8, b2: u8, b3: u8)
    ensures
        spec_u32_be(spec_be_u32(b0, b1, b2, b3)) =~= seq![b0, b1, b2, b3],
{
    lemma_bytes_inverse(b0, b1, b2, b3);
}

/// Reads a big-endian `u32` from four bytes.
pub fn u32_from_be(b0: u8, b1: u8, b2: u8, b3: u8) -> (r: u32)
    ensures
        r == spec_be_u32(b0, b1, b2, b3),
{
    (b0 as u32) << 24u32 | (b1 as u32) << 16u32 | (b2 as u32) << 8u32 | (b3 as u32)
}

/// Appends the four big-endian bytes of `x`.
pub fn push_u32_be(out: &mut Vec<u8>, x: u32)
    ensures
        final(out)@ == old(out)@ + spec_u32_be(x),
{
    out.push(((x >> 24u32) & 0xffu32) as u8);
    out.push(((x >> 16u32) & 0xffu32) as u8);
    out.push(((x >> 8u32) & 0xffu32) as u8);
    out.push((x & 0xffu32) as u8);
    proof {
        assert(out@ =~= old(out)@ + spec_u32_be(x));
    }
}

/// Copies `s[from..]` into a fresh vector.
pub fn slice_tail_to_vec(s: &[u8], from: usize) -> (r: Vec<u8>)
    requires
        from <= s@.len(),
    ensures
        r@ == s@.skip(from as int),
{
    let mut out: Vec<u8> = Vec::new();
    let mut i: usize = from;
    while i < s.len()
        invariant
            from <= i <= s@.len(),
            out@ == s@.subrange(from as int, i as int),
        decreases s@.len() - i,
    {
        let b: u8 = s[i];
        out.push(b);
        proof {
            assert(out@ =~= s@.subrange(from as int, i + 1 as int));
        }
        i = i + 1;
    }
    proof {
        assert(out@ =~= s@.skip(from as int));
    }
    out
}

/// Copies `s[from..to]` into a fresh vector.
pub fn copy_range(s: &[u8], from: usize, to: usize) -> (r: Vec<u8>)
    requires
        from <= to <= s@.len(),
    ensures
        r@ == s@.subrange(from as int, to as int),
{
    let mut out: Vec<u8> = Vec::new();
    let mut i: usize = from;
    while i < to
        invariant
            from <= i <= to <= s@.len(),
            out@ == s@.subrange(from as int, i as int),
        decreases to - i,
    {
        let x: u8 = s[i];
        out.push(x);
        proof {
            assert(out@ =~= s@.subrange(from as int, i + 1 as int));
        }
        i = i + 1;
    }
    out
}

/// A fresh vector with the same bytes.
pub fn copy_bytes(s: &Vec<u8>) -> (r: Vec<u8>)
    ensures
        r@ == s@,
{
    let r = copy_range(s.as_slice(), 0, s.len());
    proof {
        assert(r@ =~= s@);
    }
    r
}

/// Byte-for-byte equality of two vectors.
pub fn bytes_eq(a: &Vec<u8>, b: &Vec<u8>) -> (r: bool)
    ensures
        r == (a@ == b@),
{
    if a.len() != b.len() {
        return false;
    }
    let mut i: usize = 0;
    while i < a.len()
        invariant
            a@.len() == b@.len(),
            i <= a@.len(),
            forall|j: int| 0 <= j < i ==> a@[j] == b@[j],
        decreases a@.len() - i,
    {
        if a[i] != b[i] {
            return false;
        }
        i = i + 1;
    }
    proof {
        assert(a@ =~= b@);
    }
    true
}

} // verus!
