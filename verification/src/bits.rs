//! Single-bit read and merge operations on a 32-bit word.

use vstd::prelude::*;

verus! {

/// Number of bit positions in a word.
pub const WORD_BITS: u8 = 32;

/// Whether bit `i` of `word` is set. Positions count from the least
/// significant bit, which is position 0.
pub open spec fn bit_at(word: u32, i: u8) -> bool {
    (word >> i) & 1 == 1
}

/// `i` is the position that the search for the highest set bit of `word`
/// yields: the word shifted down by `i` is exactly 1, so bit `i` is set and
/// no higher one is. The all-zero word has no set bit; for it the position
/// is 0.
pub open spec fn is_msb(word: u32, i: u8) -> bool {
    i < 32 && if word == 0 {
        i == 0
    } else {
        word >> i == 1
    }
}

/// Reads bit `i` of `word`.
pub fn get_bit(word: u32, i: u8) -> (set: bool)
    requires
        i < WORD_BITS,
    ensures
        set == bit_at(word, i),
{
    assert((word & (1u32 << i) != 0) == ((word >> i) & 1 == 1)) by (bit_vector)
        requires
            i < 32,
    ;
    word & (1u32 << i) != 0
}

/// Merges `value` into bit `pos` of `word` by bitwise OR: a true `value`
/// sets the bit, a false one leaves the word as it is. A set bit is never
/// cleared.
pub fn merge_bit(word: u32, pos: u8, value: bool) -> (merged: u32)
    requires
        pos < WORD_BITS,
    ensures
        merged == if value {
            word | (1u32 << pos)
        } else {
            word
        },
        forall|j: u8| j < 32 ==> bit_at(merged, j) == (bit_at(word, j) || (value && j == pos)),
{
    let merged = if value {
        word | (1u32 << pos)
    } else {
        word
    };
    assert forall|j: u8| j < 32 implies bit_at(merged, j) == (bit_at(word, j) || (value && j
        == pos)) by {
        assert(((word | (1u32 << pos)) >> j) & 1 == 1 <==> ((word >> j) & 1 == 1 || j == pos))
            by (bit_vector)
            requires
                j < 32,
                pos < 32,
        ;
    }
    merged
}

/// Finds the highest set bit of `word`, searching from position 31 down.
pub fn find_msb(word: u32) -> (msb: u8)
    ensures
        is_msb(word, msb),
{
    let mut i: u8 = 31;
    assert(word >> 31u8 <= 1) by (bit_vector);
    while i > 0
        invariant
            i < 32,
            word >> i <= 1,
        decreases i,
    {
        if get_bit(word, i) {
            assert(word >> i == 1 && word != 0) by (bit_vector)
                requires
                    i < 32,
                    word >> i <= 1,
                    (word >> i) & 1 == 1,
            ;
            return i;
        }
        assert(word >> ((i - 1) as u8) <= 1) by (bit_vector)
            requires
                0 < i < 32,
                word >> i <= 1,
                (word >> i) & 1 != 1,
        ;
        i = i - 1;
    }
    assert(word >> 0u8 == word) by (bit_vector);
    0
}

/// The position found for a non-zero word holds a set bit, and every
/// position above it holds a clear one.
pub proof fn lemma_msb_bits(word: u32, msb: u8, j: u8)
    requires
        word != 0,
        is_msb(word, msb),
    ensures
        bit_at(word, msb),
        msb < j < 32 ==> !bit_at(word, j),
{
    assert((word >> msb) & 1 == 1 && (msb < j < 32 ==> (word >> j) & 1 != 1)) by (bit_vector)
        requires
            msb < 32,
            word >> msb == 1,
    ;
}

} // verus!
