//! Facts about the bits of a 64-bit word, stated per bit position.
//!
//! Every other module reasons about square sets through [`bit`]; the lemmas
//! here are the only place where the bit-vector solver is needed for them.

use vstd::prelude::*;
use vstd::std_specs::bits::{axiom_u64_trailing_zeros, u64_trailing_zeros};

verus! {

/// Every file but the a-file.
pub const NOT_FILE_A: u64 = 0xFEFE_FEFE_FEFE_FEFE;

/// Every file but the h-file.
pub const NOT_FILE_H: u64 = 0x7F7F_7F7F_7F7F_7F7F;

/// Whether bit `i` of `x` is set. Positions outside `0..64` hold no bit.
pub open spec fn bit(x: u64, i: int) -> bool {
    0 <= i < 64 && (x >> (i as u64)) & 1 == 1
}

pub proof fn lemma_bit_zero(i: int)
    ensures
        !bit(0, i),
{
    if 0 <= i < 64 {
        let k: u64 = i as u64;
        assert((0u64 >> k) & 1 != 1) by (bit_vector);
    }
}

pub proof fn lemma_bit_single(s: int, i: int)
    requires
        0 <= s < 64,
    ensures
        bit(1u64 << (s as u64), i) == (i == s),
{
    if 0 <= i < 64 {
        let k: u64 = i as u64;
        let t: u64 = s as u64;
        assert((((1u64 << t) >> k) & 1 == 1) == (k == t)) by (bit_vector)
            requires
                k < 64,
                t < 64,
        ;
    }
}

pub proof fn lemma_bit_or(a: u64, b: u64, i: int)
    ensures
        bit(a | b, i) == (bit(a, i) || bit(b, i)),
{
    if 0 <= i < 64 {
        let k: u64 = i as u64;
        assert((((a | b) >> k) & 1 == 1) == ((a >> k) & 1 == 1 || (b >> k) & 1 == 1))
            by (bit_vector);
    }
}

pub proof fn lemma_bit_and(a: u64, b: u64, i: int)
    ensures
        bit(a & b, i) == (bit(a, i) && bit(b, i)),
{
    if 0 <= i < 64 {
        let k: u64 = i as u64;
        assert((((a & b) >> k) & 1 == 1) == ((a >> k) & 1 == 1 && (b >> k) & 1 == 1))
            by (bit_vector);
    }
}

pub proof fn lemma_bit_not(a: u64, i: int)
    ensures
        bit(!a, i) == (0 <= i < 64 && !bit(a, i)),
{
    if 0 <= i < 64 {
        let k: u64 = i as u64;
        assert((((!a) >> k) & 1 == 1) == !((a >> k) & 1 == 1)) by (bit_vector)
            requires
                k < 64,
        ;
    }
}

/// Shifting left by eight moves every bit up one rank; the top rank falls off.
pub proof fn lemma_bit_north(a: u64, i: int)
    ensures
        bit(a << 8u64, i) == (8 <= i < 64 && bit(a, i - 8)),
{
    if 0 <= i < 64 {
        let k: u64 = i as u64;
        if i >= 8 {
            let j: u64 = (i - 8) as u64;
            assert((((a << 8u64) >> k) & 1 == 1) == ((a >> j) & 1 == 1)) by (bit_vector)
                requires
                    j < 56,
                    k == j + 8,
            ;
        } else {
            assert(((a << 8u64) >> k) & 1 != 1) by (bit_vector)
                requires
                    k < 8,
            ;
        }
    }
}

/// Shifting right by eight moves every bit down one rank; the bottom rank falls off.
pub proof fn lemma_bit_south(a: u64, i: int)
    ensures
        bit(a >> 8u64, i) == (0 <= i < 56 && bit(a, i + 8)),
{
    if 0 <= i < 64 {
        let k: u64 = i as u64;
        if i < 56 {
            let j: u64 = (i + 8) as u64;
            assert((((a >> 8u64) >> k) & 1 == 1) == ((a >> j) & 1 == 1)) by (bit_vector)
                requires
                    k < 56,
                    j == k + 8,
            ;
        } else {
            assert(((a >> 8u64) >> k) & 1 != 1) by (bit_vector)
                requires
                    56 <= k < 64,
            ;
        }
    }
}

/// Masking out the h-file and shifting left by one moves every bit one file
/// towards the h-file; nothing wraps round to the a-file.
pub proof fn lemma_bit_east(a: u64, i: int)
    ensures
        bit((a & NOT_FILE_H) << 1u64, i) == (0 <= i < 64 && i % 8 != 0 && bit(a, i - 1)),
{
    if 0 <= i < 64 {
        let k: u64 = i as u64;
        if i % 8 != 0 {
            let j: u64 = (i - 1) as u64;
            assert(((((a & 0x7F7F_7F7F_7F7F_7F7F) << 1u64) >> k) & 1 == 1) == ((a >> j) & 1 == 1))
                by (bit_vector)
                requires
                    j < 63,
                    k == j + 1,
                    k % 8 != 0,
            ;
        } else {
            assert((((a & 0x7F7F_7F7F_7F7F_7F7F) << 1u64) >> k) & 1 != 1) by (bit_vector)
                requires
                    k < 64,
                    k % 8 == 0,
            ;
        }
    }
}

/// Masking out the a-file and shifting right by one moves every bit one file
/// towards the a-file; nothing wraps round to the h-file.
pub proof fn lemma_bit_west(a: u64, i: int)
    ensures
        bit((a & NOT_FILE_A) >> 1u64, i) == (0 <= i < 64 && i % 8 != 7 && bit(a, i + 1)),
{
    if 0 <= i < 64 {
        let k: u64 = i as u64;
        if i % 8 != 7 {
            let j: u64 = (i + 1) as u64;
            assert(((((a & 0xFEFE_FEFE_FEFE_FEFE) >> 1u64) >> k) & 1 == 1) == ((a >> j) & 1 == 1))
                by (bit_vector)
                requires
                    k < 63,
                    j == k + 1,
                    k % 8 != 7,
            ;
        } else {
            assert((((a & 0xFEFE_FEFE_FEFE_FEFE) >> 1u64) >> k) & 1 != 1) by (bit_vector)
                requires
                    k < 64,
                    k % 8 == 7,
            ;
        }
    }
}

/// The position of the lowest set bit of a non-zero word.
pub open spec fn lowest(x: u64) -> int {
    u64_trailing_zeros(x) as int
}

/// A non-zero word has its lowest set bit at [`lowest`], and none below it.
pub proof fn lemma_lowest(x: u64)
    requires
        x != 0,
    ensures
        bit(x, lowest(x)),
        forall|i: int| 0 <= i < lowest(x) ==> !bit(x, i),
{
    axiom_u64_trailing_zeros(x);
    assert forall|i: int| 0 <= i < lowest(x) implies !bit(x, i) by {
        let j: u64 = i as u64;
        assert((x >> j) & 1u64 == 0u64);
    }
}

/// `x & (x - 1)` is `x` without its lowest set bit.
pub proof fn lemma_bit_drop_lowest(x: u64, i: int)
    requires
        x != 0,
    ensures
        bit(x & ((x - 1) as u64), i) == (bit(x, i) && i != lowest(x)),
{
    lemma_lowest(x);
    if 0 <= i < 64 {
        let k: u64 = i as u64;
        let t: u64 = lowest(x) as u64;
        let y: u64 = (x - 1) as u64;
        assert forall|j: u64| j < t implies (x >> j) & 1 != 1 by {
            assert(!bit(x, j as int));
        }
        assert((x << ((64 - t) as u64)) == 0 || t == 0) by {
            axiom_u64_trailing_zeros(x);
        }
        assert((((x & y) >> k) & 1 == 1) == ((x >> k) & 1 == 1 && k != t)) by (bit_vector)
            requires
                x != 0,
                y == x - 1,
                k < 64,
                t < 64,
                (x >> t) & 1 == 1,
                (x << ((64 - t) as u64)) == 0 || t == 0,
        ;
    }
}

/// Two words with the same bits are the same word.
pub proof fn lemma_bits_equal(a: u64, b: u64)
    requires
        forall|i: int| 0 <= i < 64 ==> bit(a, i) == bit(b, i),
    ensures
        a == b,
{
    let d: u64 = a ^ b;
    if d != 0 {
        lemma_lowest(d);
        let k: u64 = lowest(d) as u64;
        assert(((d >> k) & 1 == 1) == (((a >> k) & 1 == 1) != ((b >> k) & 1 == 1)))
            by (bit_vector)
            requires
                d == a ^ b,
                k < 64,
        ;
        assert(bit(a, k as int) == bit(b, k as int));
    } else {
        assert(a == b) by (bit_vector)
            requires
                a ^ b == 0,
        ;
    }
}

/// The bits of the four masks that cover the squares between a king and a
/// rook on their starting squares.
pub proof fn lemma_bit_castle_masks(i: int)
    ensures
        bit(0x60, i) == (i == 5 || i == 6),
        bit(0x0E, i) == (i == 1 || i == 2 || i == 3),
        bit(0x6000_0000_0000_0000, i) == (i == 61 || i == 62),
        bit(0x0E00_0000_0000_0000, i) == (i == 57 || i == 58 || i == 59),
{
    if 0 <= i < 64 {
        let k: u64 = i as u64;
        assert((((0x60u64 >> k) & 1 == 1) == (k == 5 || k == 6)) && (((0x0Eu64 >> k) & 1 == 1) == (k
            == 1 || k == 2 || k == 3)) && (((0x6000_0000_0000_0000u64 >> k) & 1 == 1) == (k == 61
            || k == 62)) && (((0x0E00_0000_0000_0000u64 >> k) & 1 == 1) == (k == 57 || k == 58 || k
            == 59))) by (bit_vector)
            requires
                k < 64,
        ;
    }
}

} // verus!
