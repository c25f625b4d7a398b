//! Whole numbers that stand for real numbers.
//!
//! The rules of this library that speak of positions and velocities use only
//! their order and their sign. They are stated over signed integers, and hold
//! in any scale in which a greater number has the greater integer and the
//! negative of a number has the negative integer. Whole pixels are one such
//! scale. Another is the bit pattern of a binary floating-point number read
//! as a sign and a magnitude, which is what this module turns into a signed
//! integer and back. That the magnitudes of such patterns grow with the
//! numbers is a property of the format and is not proved here.

use vstd::prelude::*;

verus! {

/// The sign bit of a 64-bit pattern.
pub const SIGN: u64 = 0x8000_0000_0000_0000;

/// The signed integer of a pattern of sign and magnitude: the magnitude, or
/// its negative where the sign bit is set.
pub open spec fn ordinal(bits: int) -> int {
    if bits < SIGN {
        bits
    } else {
        SIGN - bits
    }
}

/// The pattern of sign and magnitude of a signed integer; zero has no sign.
pub open spec fn pattern(k: int) -> int {
    if k >= 0 {
        k
    } else {
        SIGN - k
    }
}

/// Reads a pattern of sign and magnitude as a signed integer. The result is
/// never the least 64-bit integer, so it has a negative. Writing it again
/// gives the pattern back, but for zero with the sign bit set, which comes
/// back without it.
pub fn ordinal_of_bits(bits: u64) -> (k: i64)
    ensures
        k == ordinal(bits as int),
        -i64::MAX <= k <= i64::MAX,
        pattern(k as int) == if bits == SIGN {
            0
        } else {
            bits as int
        },
{
    if bits < SIGN {
        bits as i64
    } else {
        -((bits - SIGN) as i64)
    }
}

/// Writes a signed integer as a pattern of sign and magnitude. The least
/// 64-bit integer has no such pattern and is left out.
pub fn bits_of_ordinal(k: i64) -> (bits: u64)
    requires
        k != i64::MIN,
    ensures
        bits == pattern(k as int),
        ordinal(bits as int) == k,
{
    if k >= 0 {
        k as u64
    } else {
        SIGN + ((-k) as u64)
    }
}

/// Setting or clearing the sign bit of a pattern gives the negative integer.
pub proof fn lemma_sign_bit_negates(bits: u64)
    ensures
        ordinal((bits ^ SIGN) as int) == -ordinal(bits as int),
{
    assert(bits < SIGN ==> bits ^ SIGN == bits + SIGN) by (bit_vector)
        requires
            SIGN == 0x8000_0000_0000_0000u64,
    ;
    assert(bits >= SIGN ==> bits ^ SIGN == bits - SIGN) by (bit_vector)
        requires
            SIGN == 0x8000_0000_0000_0000u64,
    ;
}

/// Among patterns of one sign the order of the integers is that of the
/// magnitudes, turned round where the sign bit is set; and every pattern with
/// the sign bit set stands at or below every pattern without it.
pub proof fn lemma_ordinal_order(a: u64, b: u64)
    ensures
        a < SIGN && b < SIGN ==> (ordinal(a as int) < ordinal(b as int) <==> a < b),
        a >= SIGN && b >= SIGN ==> (ordinal(a as int) < ordinal(b as int) <==> a > b),
        a >= SIGN && b < SIGN ==> ordinal(a as int) <= ordinal(b as int),
{
}

} // verus!
