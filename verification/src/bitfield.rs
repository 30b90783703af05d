use vstd::prelude::*;

verus! {

/// A peer's advertisement of which pieces it possesses. Bit `i` is stored
/// MSB-first within byte `i / 8`: offset `7 - i % 8` from the least
/// significant end. Queries and updates beyond the stored bytes are defined:
/// a query returns false and an update is a no-op; neither faults.
#[derive(Debug, PartialEq)]
pub struct Bitfield(pub Vec<u8>);

/// Bit `k` of byte `b`, counting from the least significant end.
pub open spec fn spec_bit(b: u8, k: u8) -> bool {
    b >> k & 1u8 == 1u8
}

/// Whether piece `i` is present in the bitmap `bytes`: false beyond the
/// stored range, else the MSB-first bit of byte `i / 8`.
pub open spec fn spec_has(bytes: Seq<u8>, i: int) -> bool {
    &&& 0 <= i
    &&& i / 8 < bytes.len()
    &&& spec_bit(bytes[i / 8], (7 - i % 8) as u8)
}

/// The bitmap after recording piece `i`: byte `i / 8` gains its MSB-first
/// bit when the byte exists, and nothing changes otherwise.
pub open spec fn spec_set(bytes: Seq<u8>, i: int) -> Seq<u8> {
    if 0 <= i && i / 8 < bytes.len() {
        bytes.update(i / 8, bytes[i / 8] | (1u8 << ((7 - i % 8) as u8)))
    } else {
        bytes
    }
}

proof fn lemma_or_sets_bit(b: u8, k: u8)
    by (bit_vector)
    requires
        k < 8,
    ensures
        (b | (1u8 << k)) >> k & 1u8 == 1u8,
{
}

proof fn lemma_or_keeps_other_bit(b: u8, k: u8, kk: u8)
    by (bit_vector)
    requires
        k < 8,
        kk < 8,
        k != kk,
    ensures
        ((b | (1u8 << k)) >> kk & 1u8) == (b >> kk & 1u8),
{
}

proof fn lemma_or_set_bit_noop(b: u8, k: u8)
    by (bit_vector)
    requires
        k < 8,
        b >> k & 1u8 == 1u8,
    ensures
        b | (1u8 << k) == b,
{
}

impl View for Bitfield {
    type V = Seq<u8>;

    open spec fn view(&self) -> Seq<u8> {
        self.0@
    }
}

impl Bitfield {
    /// Whether piece `index` is advertised; false for any index beyond the
    /// stored bytes.
    pub fn has_piece(&self, index: usize) -> (r: bool)
        ensures
            r == spec_has(self@, index as int),
    {
        let byte_index: usize = index / 8;
        let byte_offset: usize = index % 8;
        if self.0.len() <= byte_index {
            return false;
        }
        let k: u8 = (7 - byte_offset) as u8;
        (self.0[byte_index] >> k) & 1u8 == 1u8
    }

    /// Records piece `index` as held. A no-op beyond the stored bytes and on
    /// an already-set bit; every other piece's answer is unchanged.
    pub fn set_piece(&mut self, index: usize)
        ensures
            final(self)@ == spec_set(old(self)@, index as int),
            final(self)@.len() == old(self)@.len(),
            index as int / 8 < old(self)@.len() ==> spec_has(final(self)@, index as int),
            index as int / 8 >= old(self)@.len() ==> final(self)@ == old(self)@,
            spec_has(old(self)@, index as int) ==> final(self)@ == old(self)@,
            forall|j: int| j != index as int ==> spec_has(final(self)@, j) == spec_has(old(self)@, j),
    {
        let byte_index: usize = index / 8;
        let byte_offset: usize = index % 8;
        if self.0.len() <= byte_index {
            return;
        }
        let k: u8 = (7 - byte_offset) as u8;
        let b: u8 = self.0[byte_index];
        let nb: u8 = b | (1u8 << k);
        self.0.set(byte_index, nb);
        proof {
            lemma_or_sets_bit(b, k);
            if spec_bit(b, k) {
                lemma_or_set_bit_noop(b, k);
                assert(final(self)@ =~= old(self)@);
            }
            assert forall|j: int| j != index as int implies spec_has(final(self)@, j) == spec_has(
                old(self)@,
                j,
            ) by {
                if 0 <= j && j / 8 < old(self)@.len() {
                    if j / 8 == index as int / 8 {
                        assert(j % 8 != index as int % 8);
                        lemma_or_keeps_other_bit(b, k, (7 - j % 8) as u8);
                    }
                }
            }
        }
    }
}

/// Recording a piece makes its query true wherever the bitmap stores it,
/// is a no-op beyond the stored bytes, and never touches another piece's
/// answer.
pub proof fn lemma_set_then_has(bytes: Seq<u8>, i: int)
    requires
        0 <= i,
    ensures
        i / 8 < bytes.len() ==> spec_has(spec_set(bytes, i), i),
        i / 8 >= bytes.len() ==> spec_set(bytes, i) == bytes,
        forall|j: int| j != i ==> spec_has(spec_set(bytes, i), j) == spec_has(bytes, j),
{
    if i / 8 < bytes.len() {
        lemma_or_sets_bit(bytes[i / 8], (7 - i % 8) as u8);
    }
    assert forall|j: int| j != i implies spec_has(spec_set(bytes, i), j) == spec_has(bytes, j) by {
        if i / 8 < bytes.len() && 0 <= j && j / 8 < bytes.len() {
            if j / 8 == i / 8 {
                assert(j % 8 != i % 8);
                lemma_or_keeps_other_bit(bytes[i / 8], (7 - i % 8) as u8, (7 - j % 8) as u8);
            }
        }
    }
}

} // verus!
