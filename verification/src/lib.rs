//! Radix string representation of IEEE 754 double values, as defined by the
//! ECMAScript Language Specification, "ToString Applied to the Number Type".
//!
//! The conversion is split along what can be reasoned about exactly:
//!
//! - [`f64_util`] decomposes a double's raw 64-bit pattern into sign,
//!   exponent and significand, and steps a pattern to its neighbour;
//! - [`digits`] holds the digit buffer of a conversion in progress, makes
//!   the rounding and carry decisions, and assembles the final string;
//! - this module validates the base and handles the special values (NaN,
//!   zeros and infinities), whose literals do not depend on the base.
//!
//! The native floating-point multiplications and divisions that scale a
//! value between digits are the caller's side of the bargain: the caller
//! performs them and hands each digit and comparison outcome to
//! [`digits::DigitBuilder`], which decides everything else.

use vstd::prelude::*;

pub mod digits;
pub mod f64_util;

verus! {

/// A floating-point base.
pub type Base = u8;

/// The minimum [Base] accepted by the conversion.
pub const MIN_BASE: Base = 2;

/// The maximum [Base] accepted by the conversion.
pub const MAX_BASE: Base = 36;

/// An error indicating that a given [Base] value is out of range of
/// [MIN_BASE] and [MAX_BASE]; it carries the offending base.
#[derive(Clone, Copy, Debug, PartialEq, Eq, Structural)]
pub struct InvalidBaseError(pub Base);

/// Allows a type to be converted to radix string representation.
///
/// The conversion returns [InvalidBaseError] if the given [Base] is out of
/// range of [MIN_BASE] and [MAX_BASE] (inclusive).
pub trait ToRadixStr: Sized {
    fn to_radix_str(self, base: Base) -> Result<String, InvalidBaseError>;
}

/// The pattern encodes NaN: exponent field all ones, significand nonzero.
pub open spec fn spec_is_nan(bits: u64) -> bool {
    bits & f64_util::K_EXPONENT_MASK == f64_util::K_EXPONENT_MASK
        && bits & f64_util::K_SIGNIFICAND_MASK != 0
}

/// The pattern encodes a zero of either sign.
pub open spec fn spec_is_zero(bits: u64) -> bool {
    bits == 0 || bits == f64_util::K_SIGN_MASK
}

/// The pattern encodes an infinity of either sign.
pub open spec fn spec_is_infinite(bits: u64) -> bool {
    bits == f64_util::K_INFINITY || bits == f64_util::K_SIGN_MASK | f64_util::K_INFINITY
}

/// The literal owed to a special value, and `None` for the finite nonzero
/// patterns, which take the digit-generation path instead.
pub open spec fn spec_special_literal(bits: u64) -> Option<Seq<char>> {
    if spec_is_nan(bits) {
        Some("NaN"@)
    } else if spec_is_zero(bits) {
        Some("0"@)
    } else if bits == f64_util::K_INFINITY {
        Some("Infinity"@)
    } else if spec_is_infinite(bits) {
        Some("-Infinity"@)
    } else {
        None
    }
}

/// Validates the base and resolves the special values.
///
/// Returns the error exactly when the base lies outside `[MIN_BASE,
/// MAX_BASE]`, carrying that base. With a valid base, returns the fixed
/// literal for NaN, zeros and infinities, and `None` for every finite
/// nonzero pattern, which the caller then converts digit by digit.
pub fn to_radix_str_special(bits: u64, base: Base) -> (r: Result<Option<String>, InvalidBaseError>)
    ensures
        r is Err <==> !(MIN_BASE <= base && base <= MAX_BASE),
        r is Err ==> r->Err_0 == (InvalidBaseError(base)),
        r is Ok ==> (r->Ok_0 is Some <==> spec_special_literal(bits) is Some),
        r is Ok && r->Ok_0 is Some ==> (r->Ok_0)->0@ == spec_special_literal(bits)->0,
{
    if base < MIN_BASE || base > MAX_BASE {
        return Err(InvalidBaseError(base));
    }

    let exp_field = bits & f64_util::K_EXPONENT_MASK;
    let sig_field = bits & f64_util::K_SIGNIFICAND_MASK;

    if exp_field == f64_util::K_EXPONENT_MASK && sig_field != 0 {
        return Ok(Some(String::from_str("NaN")));
    }

    if bits == 0 || bits == f64_util::K_SIGN_MASK {
        return Ok(Some(String::from_str("0")));
    }

    if bits == f64_util::K_INFINITY {
        return Ok(Some(String::from_str("Infinity")));
    }

    if bits == f64_util::K_SIGN_MASK | f64_util::K_INFINITY {
        return Ok(Some(String::from_str("-Infinity")));
    }

    Ok(None)
}

} // verus!
