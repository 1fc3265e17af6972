//! Ordering of IEEE-754 binary64 values held as their 64-bit patterns.

use vstd::prelude::*;

verus! {

/// The sign bit of a binary64 pattern.
pub const SIGN_BIT: u64 = 0x8000_0000_0000_0000;

/// The pattern of positive infinity; every larger magnitude is a NaN.
pub const INFINITY_BITS: u64 = 0x7FF0_0000_0000_0000;

/// The pattern of the largest finite value.
pub const MAX_BITS: u64 = 0x7FEF_FFFF_FFFF_FFFF;

/// The pattern of positive zero.
pub const ZERO_BITS: u64 = 0;

/// The pattern with the sign bit cleared.
pub open spec fn magnitude(bits: u64) -> int {
    if bits >= SIGN_BIT {
        bits - SIGN_BIT
    } else {
        bits as int
    }
}

/// Whether the sign bit is set.
pub open spec fn is_negative(bits: u64) -> bool {
    bits >= SIGN_BIT
}

/// Whether the pattern encodes a NaN.
pub open spec fn is_nan(bits: u64) -> bool {
    magnitude(bits) > INFINITY_BITS
}

/// An integer that orders the patterns that are not NaN exactly as the values
/// they encode: both zeros map to 0, negative values to negative integers.
pub open spec fn rank(bits: u64) -> int {
    if is_negative(bits) {
        -magnitude(bits)
    } else {
        magnitude(bits)
    }
}

/// The IEEE-754 `<` on patterns: false whenever an operand is NaN.
pub open spec fn less(a: u64, b: u64) -> bool {
    !is_nan(a) && !is_nan(b) && rank(a) < rank(b)
}

/// Compares two binary64 patterns as the values they encode.
pub fn less_than(a: u64, b: u64) -> (r: bool)
    ensures
        r == less(a, b),
{
    let a_negative: bool = a >= SIGN_BIT;
    let b_negative: bool = b >= SIGN_BIT;
    let a_magnitude: u64 = if a_negative { a - SIGN_BIT } else { a };
    let b_magnitude: u64 = if b_negative { b - SIGN_BIT } else { b };
    if a_magnitude > INFINITY_BITS || b_magnitude > INFINITY_BITS {
        false
    } else if a_negative {
        if b_negative {
            a_magnitude > b_magnitude
        } else {
            a_magnitude > 0 || b_magnitude > 0
        }
    } else {
        !b_negative && a_magnitude < b_magnitude
    }
}

/// `less` never relates a value to itself.
pub proof fn lemma_less_irreflexive(a: u64)
    ensures
        !less(a, a),
{
}

/// `less` never holds in both directions.
pub proof fn lemma_less_asymmetric(a: u64, b: u64)
    requires
        less(a, b),
    ensures
        !less(b, a),
{
}

/// `less` is transitive.
pub proof fn lemma_less_transitive(a: u64, b: u64, c: u64)
    requires
        less(a, b),
        less(b, c),
    ensures
        less(a, c),
{
}

/// Two patterns that are not NaN and that `less` does not separate encode the
/// same value: they are equal bit for bit unless both encode zero.
pub proof fn lemma_unordered_values_coincide(a: u64, b: u64)
    requires
        !is_nan(a),
        !is_nan(b),
        !less(a, b),
        !less(b, a),
    ensures
        a == b || (rank(a) == 0 && rank(b) == 0),
{
}

} // verus!
