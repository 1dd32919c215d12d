//! Reflected binary Gray code of a 32-bit word.

use crate::bits::{bit_at, find_msb, get_bit, is_msb, merge_bit};
use vstd::prelude::*;

verus! {

/// The reflected binary Gray code of `n`: every bit of `n` XOR-ed with its
/// higher neighbour. Zero is the one exception. It has no set bit, its
/// highest set bit is taken to be bit 0, and its code is that bit alone.
pub open spec fn gray_of(n: u32) -> u32 {
    if n == 0 {
        1
    } else {
        n ^ (n >> 1u8)
    }
}

/// The word that a Gray code stands for: each bit is the XOR of all bits of
/// the code from the highest down to its own position.
pub open spec fn gray_decoded(code: u32) -> u32
    decreases code,
    via gray_decoded_terminates
{
    if code == 0 {
        0
    } else {
        code ^ gray_decoded(code >> 1u8)
    }
}

#[via_fn]
proof fn gray_decoded_terminates(code: u32) {
    assert(code != 0 ==> code >> 1u8 < code) by (bit_vector);
}

/// The word whose `i` lowest bits are set and whose other bits are clear.
spec fn low_mask(i: u8) -> u32 {
    ((1u32 << i) - 1) as u32
}

/// Computes the Gray code of `n` bit by bit: the highest set bit is kept,
/// and each bit below it is the XOR of the two bits of `n` at and above its
/// position.
pub fn gray_code(n: u32) -> (code: u32)
    ensures
        code == gray_of(n),
        n != 0 ==> gray_decoded(code) == n,
{
    let msb = find_msb(n);
    let mut code = merge_bit(0, msb, true);
    assert(code == (1u32 << msb) | ((n ^ (n >> 1u8)) & low_mask(0))) by (bit_vector)
        requires
            code == 0u32 | (1u32 << msb),
    ;
    for i in 0..msb
        invariant
            is_msb(n, msb),
            code == (1u32 << msb) | ((n ^ (n >> 1u8)) & low_mask(i)),
    {
        let gray_bit = get_bit(n, i) ^ get_bit(n, i + 1);
        let next = merge_bit(code, i, gray_bit);
        assert(next == (1u32 << msb) | ((n ^ (n >> 1u8)) & low_mask((i + 1) as u8)))
            by (bit_vector)
            requires
                i < msb < 32,
                code == (1u32 << msb) | ((n ^ (n >> 1u8)) & low_mask(i)),
                gray_bit == (bit_at(n, i) ^ bit_at(n, (i + 1) as u8)),
                next == if gray_bit {
                    code | (1u32 << i)
                } else {
                    code
                },
        ;
        code = next;
    }
    assert(code == gray_of(n)) by (bit_vector)
        requires
            is_msb(n, msb),
            code == (1u32 << msb) | ((n ^ (n >> 1u8)) & low_mask(msb)),
    ;
    proof {
        if n != 0 {
            lemma_decode_inverts_gray(n);
        }
    }
    code
}

/// Recovers the word that a Gray code stands for.
pub fn gray_decode(code: u32) -> (word: u32)
    ensures
        word == gray_decoded(code),
{
    let mut rest: u32 = code;
    let mut word: u32 = 0;
    let ghost whole = gray_decoded(code);
    assert(0u32 ^ whole == whole) by (bit_vector);
    while rest != 0
        invariant
            word ^ gray_decoded(rest) == gray_decoded(code),
        decreases rest,
    {
        let ghost tail = gray_decoded(rest >> 1u8);
        assert((word ^ rest) ^ tail == word ^ (rest ^ tail) && rest >> 1u8 < rest) by (bit_vector)
            requires
                rest != 0,
        ;
        word = word ^ rest;
        rest = rest >> 1u8;
    }
    assert(word ^ 0u32 == word) by (bit_vector);
    word
}

/// The Gray code of a non-zero word, bit by bit: the highest set bit of the
/// word is set in the code, every bit below it is the XOR of the word's bits
/// at and just above that position, and every bit above it is clear.
pub proof fn lemma_gray_bits(n: u32, msb: u8, i: u8)
    requires
        n != 0,
        is_msb(n, msb),
        i < 32,
    ensures
        i == msb ==> bit_at(gray_of(n), i),
        i < msb ==> bit_at(gray_of(n), i) == (bit_at(n, i) ^ bit_at(n, (i + 1) as u8)),
        i > msb ==> !bit_at(gray_of(n), i),
{
    assert({
        &&& i == msb ==> bit_at(gray_of(n), i)
        &&& i < msb ==> bit_at(gray_of(n), i) == (bit_at(n, i) ^ bit_at(n, (i + 1) as u8))
        &&& i > msb ==> !bit_at(gray_of(n), i)
    }) by (bit_vector)
        requires
            n != 0,
            is_msb(n, msb),
            i < 32,
    ;
}

/// Decoding the Gray code of a non-zero word gives the word back.
pub proof fn lemma_decode_inverts_gray(n: u32)
    requires
        n != 0,
    ensures
        gray_decoded(gray_of(n)) == n,
    decreases n,
{
    let code = gray_of(n);
    let half = n >> 1u8;
    assert(code != 0 && half < n && code >> 1u8 == half ^ (half >> 1u8) && (half == 0 ==> code
        >> 1u8 == 0)) by (bit_vector)
        requires
            n != 0,
            code == n ^ (n >> 1u8),
            half == n >> 1u8,
    ;
    if half != 0 {
        lemma_decode_inverts_gray(half);
    }
    assert(gray_decoded(code >> 1u8) == half);
    assert(code ^ half == n) by (bit_vector)
        requires
            code == n ^ (n >> 1u8),
            half == n >> 1u8,
    ;
}

/// Shifting a code down by one bit shifts the decoded word down by one bit.
pub proof fn lemma_decoded_shift(code: u32)
    ensures
        gray_decoded(code >> 1u8) == gray_decoded(code) >> 1u8,
    decreases code,
{
    if code == 0 {
        assert(0u32 >> 1u8 == 0u32) by (bit_vector);
    } else {
        let half = code >> 1u8;
        assert(half < code) by (bit_vector)
            requires
                code != 0,
                half == code >> 1u8,
        ;
        lemma_decoded_shift(half);
        let tail = gray_decoded(half);
        let tail_half = gray_decoded(half >> 1u8);
        assert((code ^ tail) >> 1u8 == tail) by (bit_vector)
            requires
                half == code >> 1u8,
                tail_half == tail >> 1u8,
                tail == if half == 0 {
                    0u32
                } else {
                    half ^ tail_half
                },
        ;
    }
}

/// The decoded word is a running XOR from the top: each of its bits is the
/// code's bit at that position XOR-ed with the decoded bit just above, and
/// its bit 31 is the code's own.
pub proof fn lemma_decoded_is_cumulative_xor(code: u32)
    ensures
        gray_decoded(code) == code ^ (gray_decoded(code) >> 1u8),
{
    lemma_decoded_shift(code);
    if code == 0 {
        assert(0u32 == 0u32 ^ (0u32 >> 1u8)) by (bit_vector);
    }
}

} // verus!
