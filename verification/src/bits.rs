//! Byte-level primitives used by the mutation programs: wrapping arithmetic on
//! one byte, bit reversal, population count and rotation.

use vstd::prelude::*;

verus! {

/// The byte that is congruent to `v` modulo 256.
pub open spec fn wrap8(v: int) -> u8 {
    (v % 256) as u8
}

/// Whether bit `i` (0 is the least significant) of `t` is set.
pub open spec fn bit_set(t: u8, i: u8) -> bool {
    (t >> i) & 1 == 1
}

/// `t` with its eight bits in the opposite order: bit 0 trades places with
/// bit 7, bit 1 with bit 6, and so on.
pub open spec fn reversed(t: u8) -> u8 {
    ((t & 0x01) << 7) | ((t & 0x02) << 5) | ((t & 0x04) << 3) | ((t & 0x08) << 1)
        | ((t & 0x10) >> 1) | ((t & 0x20) >> 3) | ((t & 0x40) >> 5) | ((t & 0x80) >> 7)
}

/// The number of set bits of `t`.
pub open spec fn popcount(t: u8) -> u8 {
    ((t & 1) + ((t >> 1) & 1) + ((t >> 2) & 1) + ((t >> 3) & 1) + ((t >> 4) & 1) + ((t >> 5) & 1)
        + ((t >> 6) & 1) + ((t >> 7) & 1)) as u8
}

/// `t` rotated towards the most significant bit by `n` places; only `n mod 8`
/// matters.
pub open spec fn rotated_left(t: u8, n: u8) -> u8 {
    let k = n % 8;
    if k == 0 {
        t
    } else {
        (t << k) | (t >> ((8 - k) as u8))
    }
}

/// Reversal moves every bit to the mirrored place.
pub proof fn lemma_reversed_bits(t: u8, i: u8)
    requires
        i < 8,
    ensures
        bit_set(reversed(t), i) == bit_set(t, (7 - i) as u8),
{
    let j: u8 = (7 - i) as u8;
    assert(bit_set(reversed(t), i) == bit_set(t, j)) by (bit_vector)
        requires
            i < 8,
            j == 7 - i,
    ;
}

/// Reversing twice gives the byte back.
pub proof fn lemma_reversed_involution(t: u8)
    ensures
        reversed(reversed(t)) == t,
{
    assert(reversed(reversed(t)) == t) by (bit_vector);
}

/// Rotation by `n` moves the bit at place `i` to place `(i + n) mod 8`.
pub proof fn lemma_rotated_bits(t: u8, n: u8, i: u8)
    requires
        i < 8,
    ensures
        bit_set(rotated_left(t, n), ((i + n) % 8) as u8) == bit_set(t, i),
{
    let k: u8 = n % 8;
    let j: u8 = ((i + n) % 8) as u8;
    let r = rotated_left(t, n);
    assert(j == (i + k) % 8);
    if k == 0 {
        assert(j == i);
    } else {
        let back: u8 = (8 - k) as u8;
        assert(((((t << k) | (t >> back)) >> j) & 1 == 1) == ((t >> i) & 1 == 1)) by (bit_vector)
            requires
                i < 8,
                0 < k < 8,
                back == 8 - k,
                j == (i + k) % 8,
        ;
    }
}

/// Reverses the bit order of a byte by swapping halves, then pairs, then
/// neighbours.
pub fn reverse_bits(t: u8) -> (r: u8)
    ensures
        r == reversed(t),
{
    let a: u8 = ((t & 0xF0) >> 4) | ((t & 0x0F) << 4);
    let b: u8 = ((a & 0xCC) >> 2) | ((a & 0x33) << 2);
    let c: u8 = ((b & 0xAA) >> 1) | ((b & 0x55) << 1);
    assert(c == reversed(t)) by (bit_vector)
        requires
            a == ((t & 0xF0) >> 4) | ((t & 0x0F) << 4),
            b == ((a & 0xCC) >> 2) | ((a & 0x33) << 2),
            c == ((b & 0xAA) >> 1) | ((b & 0x55) << 1),
    ;
    c
}

/// Counts the set bits of a byte by summing neighbouring fields in parallel.
pub fn count_ones(t: u8) -> (r: u8)
    ensures
        r == popcount(t),
        r <= 8,
{
    let h: u8 = (t >> 1) & 0x55;
    assert(h <= t) by (bit_vector)
        requires
            h == (t >> 1) & 0x55,
    ;
    let a: u8 = t - h;
    let lo: u8 = a & 0x33;
    let hi: u8 = (a >> 2) & 0x33;
    assert(lo + hi < 256) by (bit_vector)
        requires
            lo == a & 0x33,
            hi == (a >> 2) & 0x33,
    ;
    let b: u8 = lo + hi;
    let s: u8 = b >> 4;
    assert(b + s < 256 && ((b + s) as u8) & 0x0F == popcount(t) && popcount(t) <= 8)
        by (bit_vector)
        requires
            h == (t >> 1) & 0x55,
            h <= t,
            a == (t - h) as u8,
            lo == a & 0x33,
            hi == (a >> 2) & 0x33,
            lo + hi < 256,
            b == (lo + hi) as u8,
            s == b >> 4,
    ;
    (b + s) & 0x0F
}

/// Rotates a byte to the left by `n mod 8` places.
pub fn rotate_left(t: u8, n: u8) -> (r: u8)
    ensures
        r == rotated_left(t, n),
{
    let k: u8 = n % 8;
    if k == 0 {
        t
    } else {
        (t << k) | (t >> (8 - k))
    }
}

} // verus!
