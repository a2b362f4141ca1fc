//! Bit-level decomposition of IEEE 754 double-precision values.
//!
//! Every function here works on the raw 64-bit pattern of a double, so the
//! whole module is ordinary integer logic: sign, exponent and significand are
//! fields of the bit pattern, and the neighbour of a value is reached by
//! stepping the pattern by one, which is order-preserving for same-sign
//! doubles.

use vstd::prelude::*;

verus! {

/// Mask of the sign bit.
pub const K_SIGN_MASK: u64 = 0x8000_0000_0000_0000;

/// Mask of the 11-bit exponent field.
pub const K_EXPONENT_MASK: u64 = 0x7FF0_0000_0000_0000;

/// Mask of the 52-bit stored significand field.
pub const K_SIGNIFICAND_MASK: u64 = 0x000F_FFFF_FFFF_FFFF;

/// The implicit leading bit of a normal value.
pub const K_HIDDEN_BIT: u64 = 0x0010_0000_0000_0000;

/// Bit pattern of positive infinity.
pub const K_INFINITY: u64 = 0x7FF0_0000_0000_0000;

/// Number of stored significand bits (the hidden bit excluded).
pub const K_PHYSICAL_SIGNIFICAND_SIZE: u64 = 52;

/// Exponent bias once the significand is read as an integer.
pub const K_EXPONENT_BIAS: i32 = 0x3FF + 52;

/// Exponent reported for subnormal values.
pub const K_DENORMAL_EXPONENT: i32 = -K_EXPONENT_BIAS + 1;

/// A pattern is subnormal exactly when its exponent field is all zero.
pub open spec fn spec_is_denormal(bits: u64) -> bool {
    bits & K_EXPONENT_MASK == 0
}

/// Reports if the given floating-point bits are subnormal.
pub fn is_denormal(bits: u64) -> (r: bool)
    ensures
        r == spec_is_denormal(bits),
{
    bits & K_EXPONENT_MASK == 0
}

/// The significand of a pattern: the stored field, with the implicit leading
/// bit restored for normal values.
pub open spec fn spec_significand(bits: u64) -> u64 {
    if spec_is_denormal(bits) {
        bits & K_SIGNIFICAND_MASK
    } else {
        ((bits & K_SIGNIFICAND_MASK) + K_HIDDEN_BIT) as u64
    }
}

/// Gets the significand of the given floating-point bits.
pub fn significand(bits: u64) -> (r: u64)
    ensures
        r == spec_significand(bits),
{
    let significand = bits & K_SIGNIFICAND_MASK;
    proof {
        assert(bits & 0x000F_FFFF_FFFF_FFFFu64 <= 0x000F_FFFF_FFFF_FFFFu64) by (bit_vector);
    }
    if is_denormal(bits) {
        significand
    } else {
        significand + K_HIDDEN_BIT
    }
}

/// A pattern is positive exactly when its sign bit is clear.
pub open spec fn spec_is_pos(bits: u64) -> bool {
    bits & K_SIGN_MASK == 0
}

/// Reports if the given floating-point bits are positive.
pub fn is_pos(bits: u64) -> (r: bool)
    ensures
        r == spec_is_pos(bits),
{
    bits & K_SIGN_MASK == 0
}

/// The unbiased binary exponent of a pattern, scaled so that the value is
/// `significand * 2^exponent`: subnormals report the fixed minimum, normals
/// the biased field minus the bias.
pub open spec fn spec_exponent(bits: u64) -> int {
    if spec_is_denormal(bits) {
        K_DENORMAL_EXPONENT as int
    } else {
        ((bits & K_EXPONENT_MASK) >> K_PHYSICAL_SIGNIFICAND_SIZE) - K_EXPONENT_BIAS
    }
}

/// Gets the exponent of the given floating-point bits.
pub fn exponent(bits: u64) -> (e: i32)
    ensures
        e == spec_exponent(bits),
{
    if is_denormal(bits) {
        return K_DENORMAL_EXPONENT;
    }

    let biased: u64 = (bits & K_EXPONENT_MASK) >> K_PHYSICAL_SIGNIFICAND_SIZE;
    proof {
        assert((bits & 0x7FF0_0000_0000_0000u64) >> 52u64 <= 0x7FF) by (bit_vector);
    }
    (biased as i32) - K_EXPONENT_BIAS
}

/// The pattern of the next greater double: infinity is a fixed point, a
/// negative zero steps to positive zero, and otherwise the pattern moves by
/// one, toward zero for negative values.
pub open spec fn spec_next_float(bits: u64) -> u64 {
    if bits == K_INFINITY {
        bits
    } else if !spec_is_pos(bits) && spec_significand(bits) == 0 {
        0u64
    } else if !spec_is_pos(bits) {
        (bits - 1) as u64
    } else {
        (bits + 1) as u64
    }
}

/// Returns the bit pattern of the next greater double.
/// Returns the infinity pattern unchanged if `bits` is positive infinity.
pub fn next_float(bits: u64) -> (r: u64)
    ensures
        r == spec_next_float(bits),
{
    if bits == K_INFINITY {
        return bits;
    }

    let is_neg = !is_pos(bits);
    if is_neg && significand(bits) == 0 {
        return 0;
    }

    if is_neg {
        proof {
            assert(bits & 0x8000_0000_0000_0000u64 != 0 ==> bits >= 1) by (bit_vector);
        }
        bits - 1
    } else {
        proof {
            assert(bits & 0x8000_0000_0000_0000u64 == 0 ==> bits <= 0x7FFF_FFFF_FFFF_FFFFu64)
                by (bit_vector);
        }
        bits + 1
    }
}

} // verus!
