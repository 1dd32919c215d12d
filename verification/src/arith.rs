//! Addition and multiplication of 32-bit words built from bitwise
//! operations alone.

use vstd::arithmetic::div_mod::lemma_add_mod_noop_right;
use vstd::prelude::*;

verus! {

/// The number of values a word can take: sums and products are taken
/// modulo this.
pub open spec fn modulus() -> int {
    0x1_0000_0000
}

/// The sum of two words, wrapped to the word width.
pub open spec fn wrapping_sum(a: u32, b: u32) -> u32 {
    ((a + b) % modulus()) as u32
}

/// The product of two words, wrapped to the word width.
pub open spec fn wrapping_product(a: u32, b: u32) -> u32 {
    ((a * b) % modulus()) as u32
}

/// The `k` lowest bits of `word` are all clear.
spec fn low_bits_clear(word: u32, k: u8) -> bool {
    (word as u64) & (((1u64 << k) - 1) as u64) == 0
}

/// One step of addition without carry propagation: the bitwise sum of the
/// two words and the carries that the step leaves, each carry still at the
/// position that produced it.
pub fn half_adder(a: u32, b: u32) -> (out: (u32, u32))
    ensures
        out.0 == a ^ b,
        out.1 == a & b,
        out.0 + 2 * out.1 == a + b,
{
    assert((a ^ b) + 2 * (a & b) == a + b) by (bit_vector);
    (a ^ b, a & b)
}

/// Adds two words by repeating the half-adder step until no carry is left.
/// A sum that does not fit in a word wraps around.
pub fn adder(a: u32, b: u32) -> (sum: u32)
    ensures
        sum == wrapping_sum(a, b),
{
    let mut x: u32 = a;
    let mut y: u32 = b;
    let ghost mut k: u8 = 0;
    assert(low_bits_clear(y, 0)) by (bit_vector);
    while y != 0
        invariant
            k <= 32,
            low_bits_clear(y, k),
            (x + y) % modulus() == (a + b) % modulus(),
        decreases 32 - k,
    {
        let (partial, carry) = half_adder(x, y);
        assert(k < 32) by (bit_vector)
            requires
                k <= 32,
                y != 0,
                low_bits_clear(y, k),
        ;
        assert(low_bits_clear(carry << 1u32, (k + 1) as u8)) by (bit_vector)
            requires
                k < 32,
                carry == x & y,
                low_bits_clear(y, k),
        ;
        assert((carry << 1u32) == (2 * carry) % 0x1_0000_0000) by (bit_vector);
        x = partial;
        y = carry << 1u32;
        proof {
            k = (k + 1) as u8;
        }
    }
    x
}

/// Multiplies two words by adding `a` into a running total `b` times. A
/// product that does not fit in a word wraps around. The running time grows
/// with `b`.
pub fn multiplier(a: u32, b: u32) -> (product: u32)
    ensures
        product == wrapping_product(a, b),
        b == 0 ==> product == 0,
{
    let mut total: u32 = 0;
    assert(wrapping_product(a, 0) == 0) by (nonlinear_arith);
    for i in 0..b
        invariant
            total == wrapping_product(a, i),
    {
        proof {
            lemma_add_mod_noop_right(a as int, a * i, modulus());
            assert(a + a * i == a * (i + 1)) by (nonlinear_arith);
        }
        total = adder(total, a);
    }
    total
}

} // verus!
