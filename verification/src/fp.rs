//! Scalars as IEEE-754 binary64 bit patterns.
//!
//! The library never computes with floating-point numbers; it carries each
//! scalar as the `u64` bit pattern of an IEEE-754 binary64 value.  Ordering
//! and equality of such values are sign-magnitude comparisons of the bit
//! patterns (with the two zeros equal and any NaN unordered), so they can be
//! implemented, and verified, in plain integer arithmetic.  Arithmetic on the
//! values themselves is left to the caller.

use vstd::prelude::*;

verus! {

/// The sign bit of a binary64 pattern.
pub const SIGN_MASK: u64 = 0x8000_0000_0000_0000;

/// Exponent field all ones, mantissa zero: the magnitude of an infinity.
pub const INF_MAGNITUDE: u64 = 0x7FF0_0000_0000_0000;

/// The bit pattern of positive infinity.
pub const POS_INFINITY: u64 = 0x7FF0_0000_0000_0000;

/// The bit pattern of negative infinity.
pub const NEG_INFINITY: u64 = 0xFFF0_0000_0000_0000;

/// The bit pattern of positive zero.
pub const POS_ZERO: u64 = 0;

/// Whether the sign bit of the pattern is set.
pub open spec fn spec_sign_negative(bits: u64) -> bool {
    bits >= SIGN_MASK
}

/// The pattern with the sign bit cleared: the magnitude ordering key.
pub open spec fn spec_magnitude(bits: u64) -> u64 {
    if bits >= SIGN_MASK {
        (bits - SIGN_MASK) as u64
    } else {
        bits
    }
}

/// A NaN: exponent field all ones and mantissa non-zero.
pub open spec fn spec_is_nan(bits: u64) -> bool {
    spec_magnitude(bits) > INF_MAGNITUDE
}

/// Maps every non-NaN pattern to an integer ordered as the values are:
/// negative values by descending magnitude, then the zeros, then positive
/// values by ascending magnitude.
pub open spec fn spec_key(bits: u64) -> int {
    if spec_sign_negative(bits) {
        -(spec_magnitude(bits) as int)
    } else {
        spec_magnitude(bits) as int
    }
}

/// IEEE-754 `<`: false if either side is NaN, else ordered by key.
pub open spec fn spec_lt(a: u64, b: u64) -> bool {
    !spec_is_nan(a) && !spec_is_nan(b) && spec_key(a) < spec_key(b)
}

/// IEEE-754 `>`: false if either side is NaN, else ordered by key.
pub open spec fn spec_gt(a: u64, b: u64) -> bool {
    !spec_is_nan(a) && !spec_is_nan(b) && spec_key(a) > spec_key(b)
}

/// IEEE-754 `==`: false if either side is NaN; the two zeros are equal.
pub open spec fn spec_eq(a: u64, b: u64) -> bool {
    !spec_is_nan(a) && !spec_is_nan(b) && spec_key(a) == spec_key(b)
}

/// The pattern with the sign bit flipped: exact IEEE-754 negation.
pub open spec fn spec_neg(bits: u64) -> u64 {
    if bits >= SIGN_MASK {
        (bits - SIGN_MASK) as u64
    } else {
        (bits + SIGN_MASK) as u64
    }
}

/// Whether the value is less than or equal to zero: non-NaN with a
/// non-positive key.  Degenerate-element detection uses this.
pub open spec fn spec_le_zero(bits: u64) -> bool {
    !spec_is_nan(bits) && spec_key(bits) <= 0
}

/// Whether the pattern is a NaN.
pub fn is_nan(bits: u64) -> (r: bool)
    ensures
        r == spec_is_nan(bits),
{
    let magnitude = if bits >= SIGN_MASK { bits - SIGN_MASK } else { bits };
    magnitude > INF_MAGNITUDE
}

/// IEEE-754 `a < b` on bit patterns.
pub fn lt(a: u64, b: u64) -> (r: bool)
    ensures
        r == spec_lt(a, b),
{
    if is_nan(a) || is_nan(b) {
        return false;
    }
    let mag_a = if a >= SIGN_MASK { a - SIGN_MASK } else { a };
    let mag_b = if b >= SIGN_MASK { b - SIGN_MASK } else { b };
    if a >= SIGN_MASK {
        if b >= SIGN_MASK {
            mag_a > mag_b
        } else {
            !(mag_a == 0 && mag_b == 0)
        }
    } else {
        if b >= SIGN_MASK {
            false
        } else {
            mag_a < mag_b
        }
    }
}

/// IEEE-754 `a > b` on bit patterns.
pub fn gt(a: u64, b: u64) -> (r: bool)
    ensures
        r == spec_gt(a, b),
{
    lt(b, a)
}

/// IEEE-754 `a == b` on bit patterns.
pub fn eq(a: u64, b: u64) -> (r: bool)
    ensures
        r == spec_eq(a, b),
{
    if is_nan(a) || is_nan(b) {
        return false;
    }
    let mag_a = if a >= SIGN_MASK { a - SIGN_MASK } else { a };
    let mag_b = if b >= SIGN_MASK { b - SIGN_MASK } else { b };
    if mag_a == 0 && mag_b == 0 {
        true
    } else {
        a == b
    }
}

/// Exact IEEE-754 negation: flips the sign bit.
pub fn neg(bits: u64) -> (r: u64)
    ensures
        r == spec_neg(bits),
        spec_is_nan(r) == spec_is_nan(bits),
        !spec_is_nan(bits) ==> spec_key(r) == -spec_key(bits),
{
    if bits >= SIGN_MASK {
        bits - SIGN_MASK
    } else {
        bits + SIGN_MASK
    }
}

/// Whether the value is less than or equal to zero (NaN is not).
pub fn le_zero(bits: u64) -> (r: bool)
    ensures
        r == spec_le_zero(bits),
{
    if is_nan(bits) {
        return false;
    }
    if bits >= SIGN_MASK {
        true
    } else {
        bits == 0
    }
}

/// Negation is an involution on every pattern.
pub proof fn lemma_neg_involution(bits: u64)
    ensures
        spec_neg(spec_neg(bits)) == bits,
{
}

/// The comparisons are mutually consistent on non-NaN patterns: exactly one
/// of `a < b`, `a == b`, `a > b` holds.
pub proof fn lemma_trichotomy(a: u64, b: u64)
    requires
        !spec_is_nan(a),
        !spec_is_nan(b),
    ensures
        spec_lt(a, b) ==> !spec_eq(a, b) && !spec_gt(a, b),
        spec_eq(a, b) ==> !spec_lt(a, b) && !spec_gt(a, b),
        spec_gt(a, b) ==> !spec_lt(a, b) && !spec_eq(a, b),
        spec_lt(a, b) || spec_eq(a, b) || spec_gt(a, b),
{
}

} // verus!
