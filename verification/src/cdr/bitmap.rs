//! Bitmaps packed into 32-bit words: bit `j` of word `i` stands for position
//! `32 * i + j`, bit 0 being the least significant.

use bit_vec::BitVec;
use vstd::prelude::*;

verus! {

/// Whether bit `index` of `word` is set, bit 0 being the least significant.
pub open spec fn bit(word: u32, index: u32) -> bool {
    index < 32 && word & (1u32 << index) != 0
}

/// The word whose bits below `width` are the ones that `set` holds, and whose
/// other bits are clear.
pub open spec fn word_of(set: spec_fn(u32) -> bool, width: u32) -> u32
    decreases width,
{
    if width == 0 || width > 32 {
        0
    } else if set((width - 1) as u32) {
        (word_of(set, (width - 1) as u32) | (1u32 << ((width - 1) as u32)))
    } else {
        word_of(set, (width - 1) as u32)
    }
}

/// `word_of` sets exactly the bits asked for.
pub proof fn lemma_word_of(set: spec_fn(u32) -> bool, width: u32)
    requires
        width <= 32,
    ensures
        forall|index: u32| bit(word_of(set, width), index) == (index < width && set(index)),
    decreases width,
{
    if width > 0 {
        let below = (width - 1) as u32;
        let rest = word_of(set, below);
        lemma_word_of(set, below);
        assert forall|index: u32| bit(word_of(set, width), index) == (index < width && set(
            index,
        )) by {
            if index < 32 {
                assert(bit(rest, index) == (index < below && set(index)));
                assert((rest | (1u32 << below)) & (1u32 << index) != 0 <==> (rest & (1u32 << index)
                    != 0 || index == below)) by (bit_vector)
                    requires
                        index < 32,
                        below < 32,
                ;
            }
        }
    } else {
        assert forall|index: u32| !bit(0u32, index) by {
            assert(0u32 & (1u32 << index) == 0) by (bit_vector);
        }
    }
}

/// Two words with the same bits are the same word.
pub proof fn lemma_word_by_bits(a: u32, b: u32)
    requires
        forall|index: u32| index < 32 ==> bit(a, index) == bit(b, index),
    ensures
        a == b,
{
    assert(bit(a, 0) == bit(b, 0));
    assert(bit(a, 1) == bit(b, 1));
    assert(bit(a, 2) == bit(b, 2));
    assert(bit(a, 3) == bit(b, 3));
    assert(bit(a, 4) == bit(b, 4));
    assert(bit(a, 5) == bit(b, 5));
    assert(bit(a, 6) == bit(b, 6));
    assert(bit(a, 7) == bit(b, 7));
    assert(bit(a, 8) == bit(b, 8));
    assert(bit(a, 9) == bit(b, 9));
    assert(bit(a, 10) == bit(b, 10));
    assert(bit(a, 11) == bit(b, 11));
    assert(bit(a, 12) == bit(b, 12));
    assert(bit(a, 13) == bit(b, 13));
    assert(bit(a, 14) == bit(b, 14));
    assert(bit(a, 15) == bit(b, 15));
    assert(bit(a, 16) == bit(b, 16));
    assert(bit(a, 17) == bit(b, 17));
    assert(bit(a, 18) == bit(b, 18));
    assert(bit(a, 19) == bit(b, 19));
    assert(bit(a, 20) == bit(b, 20));
    assert(bit(a, 21) == bit(b, 21));
    assert(bit(a, 22) == bit(b, 22));
    assert(bit(a, 23) == bit(b, 23));
    assert(bit(a, 24) == bit(b, 24));
    assert(bit(a, 25) == bit(b, 25));
    assert(bit(a, 26) == bit(b, 26));
    assert(bit(a, 27) == bit(b, 27));
    assert(bit(a, 28) == bit(b, 28));
    assert(bit(a, 29) == bit(b, 29));
    assert(bit(a, 30) == bit(b, 30));
    assert(bit(a, 31) == bit(b, 31));
    assert(a == b) by (bit_vector)
        requires
            (a & (1u32 << 0u32) != 0) == (b & (1u32 << 0u32) != 0),
            (a & (1u32 << 1u32) != 0) == (b & (1u32 << 1u32) != 0),
            (a & (1u32 << 2u32) != 0) == (b & (1u32 << 2u32) != 0),
            (a & (1u32 << 3u32) != 0) == (b & (1u32 << 3u32) != 0),
            (a & (1u32 << 4u32) != 0) == (b & (1u32 << 4u32) != 0),
            (a & (1u32 << 5u32) != 0) == (b & (1u32 << 5u32) != 0),
            (a & (1u32 << 6u32) != 0) == (b & (1u32 << 6u32) != 0),
            (a & (1u32 << 7u32) != 0) == (b & (1u32 << 7u32) != 0),
            (a & (1u32 << 8u32) != 0) == (b & (1u32 << 8u32) != 0),
            (a & (1u32 << 9u32) != 0) == (b & (1u32 << 9u32) != 0),
            (a & (1u32 << 10u32) != 0) == (b & (1u32 << 10u32) != 0),
            (a & (1u32 << 11u32) != 0) == (b & (1u32 << 11u32) != 0),
            (a & (1u32 << 12u32) != 0) == (b & (1u32 << 12u32) != 0),
            (a & (1u32 << 13u32) != 0) == (b & (1u32 << 13u32) != 0),
            (a & (1u32 << 14u32) != 0) == (b & (1u32 << 14u32) != 0),
            (a & (1u32 << 15u32) != 0) == (b & (1u32 << 15u32) != 0),
            (a & (1u32 << 16u32) != 0) == (b & (1u32 << 16u32) != 0),
            (a & (1u32 << 17u32) != 0) == (b & (1u32 << 17u32) != 0),
            (a & (1u32 << 18u32) != 0) == (b & (1u32 << 18u32) != 0),
            (a & (1u32 << 19u32) != 0) == (b & (1u32 << 19u32) != 0),
            (a & (1u32 << 20u32) != 0) == (b & (1u32 << 20u32) != 0),
            (a & (1u32 << 21u32) != 0) == (b & (1u32 << 21u32) != 0),
            (a & (1u32 << 22u32) != 0) == (b & (1u32 << 22u32) != 0),
            (a & (1u32 << 23u32) != 0) == (b & (1u32 << 23u32) != 0),
            (a & (1u32 << 24u32) != 0) == (b & (1u32 << 24u32) != 0),
            (a & (1u32 << 25u32) != 0) == (b & (1u32 << 25u32) != 0),
            (a & (1u32 << 26u32) != 0) == (b & (1u32 << 26u32) != 0),
            (a & (1u32 << 27u32) != 0) == (b & (1u32 << 27u32) != 0),
            (a & (1u32 << 28u32) != 0) == (b & (1u32 << 28u32) != 0),
            (a & (1u32 << 29u32) != 0) == (b & (1u32 << 29u32) != 0),
            (a & (1u32 << 30u32) != 0) == (b & (1u32 << 30u32) != 0),
            (a & (1u32 << 31u32) != 0) == (b & (1u32 << 31u32) != 0),
    ;
}

#[verifier::external_type_specification]
#[verifier::external_body]
#[verifier::reject_recursive_types(B)]
pub struct ExBitVec<B>(BitVec<B>);

/// The bits that a `BitVec` holds, in order.
pub uninterp spec fn bits_of(bitmask: BitVec<u32>) -> Seq<bool>;

/// `BitVec::from_elem`: a bitmap of `nbits` bits, each equal to `bit`.
#[verifier::external_body]
pub(crate) fn bitmask_from_elem(nbits: usize, bit: bool) -> (bitmask: BitVec<u32>)
    ensures
        bits_of(bitmask) == Seq::new(nbits as nat, |i: int| bit),
{
    BitVec::from_elem(nbits, bit)
}

/// `BitVec::set`: gives the bit at `index` the value `bit` and leaves the
/// others as they are. The index has to be in bounds.
#[verifier::external_body]
pub(crate) fn bitmask_set(bitmask: &mut BitVec<u32>, index: usize, bit: bool)
    requires
        index < bits_of(*old(bitmask)).len(),
    ensures
        bits_of(*final(bitmask)) == bits_of(*old(bitmask)).update(index as int, bit),
{
    bitmask.set(index, bit)
}

/// `BitVec::blocks`: the 32-bit words that hold the bits, as many as are
/// needed for all of them. Bit `j` of word `i` is the bit at `32 * i + j`;
/// the bits of the last word that lie past the end are clear.
#[verifier::external_body]
pub(crate) fn bitmask_blocks(bitmask: &BitVec<u32>) -> (blocks: Vec<u32>)
    ensures
        blocks@.len() == (bits_of(*bitmask).len() + 31) / 32,
        forall|i: int, j: u32|
            0 <= i < blocks@.len() && j < 32 ==> #[trigger] bit(blocks@[i], j) == (32 * i + j
                < bits_of(*bitmask).len() && bits_of(*bitmask)[32 * i + j]),
{
    bitmask.blocks().collect()
}

} // verus!
