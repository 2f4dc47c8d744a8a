//! Binary64 numbers as bit patterns: sign, magnitude and the IEEE-754 order.

use vstd::prelude::*;

verus! {

/// The sign bit of a binary64 number; also the bit pattern of `-0.0`.
pub const SIGN_BIT: u64 = 0x8000_0000_0000_0000;

/// The bit pattern of positive infinity.
pub const INFINITY: u64 = 0x7FF0_0000_0000_0000;

/// The bit pattern of `0.0`.
pub const ZERO: u64 = 0;

/// The bit pattern of `1.0`.
pub const ONE: u64 = 0x3FF0_0000_0000_0000;

/// Whether the sign bit is set.
pub open spec fn is_negative(bits: u64) -> bool {
    bits >= SIGN_BIT
}

/// The pattern with its sign bit cleared, as a number.
pub open spec fn magnitude(bits: u64) -> int {
    if bits >= SIGN_BIT {
        bits - SIGN_BIT
    } else {
        bits as int
    }
}

/// Whether the pattern encodes a NaN: all exponent bits set and a nonzero
/// fraction.
pub open spec fn is_nan(bits: u64) -> bool {
    magnitude(bits) > INFINITY
}

/// The position of a pattern on the number line of binary64: the magnitude,
/// negated where the sign bit is set. Both zeros are at 0. Among patterns that
/// are not NaN, a smaller ordinal is a smaller number.
pub open spec fn ordinal(bits: u64) -> int {
    if is_negative(bits) {
        -magnitude(bits)
    } else {
        magnitude(bits)
    }
}

/// The IEEE-754 relation `a < b`: false as soon as either side is NaN.
pub open spec fn less_than(a: u64, b: u64) -> bool {
    !is_nan(a) && !is_nan(b) && ordinal(a) < ordinal(b)
}

/// The pattern with its sign bit cleared.
pub fn abs_bits(bits: u64) -> (r: u64)
    ensures
        r == magnitude(bits),
        r < SIGN_BIT,
{
    if bits >= SIGN_BIT {
        bits - SIGN_BIT
    } else {
        bits
    }
}

/// Decides `is_nan`.
pub fn nan(bits: u64) -> (r: bool)
    ensures
        r == is_nan(bits),
{
    abs_bits(bits) > INFINITY
}

/// Decides `a < b` as IEEE-754 does, on the bit patterns alone.
pub fn less(a: u64, b: u64) -> (r: bool)
    ensures
        r == less_than(a, b),
{
    if nan(a) || nan(b) {
        return false;
    }
    let ma: u64 = abs_bits(a);
    let mb: u64 = abs_bits(b);
    if a >= SIGN_BIT {
        if b >= SIGN_BIT {
            ma > mb
        } else {
            ma > 0 || mb > 0
        }
    } else {
        if b >= SIGN_BIT {
            false
        } else {
            ma < mb
        }
    }
}

/// Decides whether a pattern is a number strictly above zero.
pub fn positive(bits: u64) -> (r: bool)
    ensures
        r == less_than(ZERO, bits),
        r == (0 < bits <= INFINITY),
{
    less(ZERO, bits)
}

/// `less_than` never holds of a pattern and itself.
pub proof fn less_than_irreflexive(a: u64)
    ensures
        !less_than(a, a),
{
}

/// `less_than` never holds both ways.
pub proof fn less_than_asymmetric(a: u64, b: u64)
    requires
        less_than(a, b),
    ensures
        !less_than(b, a),
{
}

/// `less_than` is transitive.
pub proof fn less_than_transitive(a: u64, b: u64, c: u64)
    requires
        less_than(a, b),
        less_than(b, c),
    ensures
        less_than(a, c),
{
}

/// The two zeros are equal in the order: neither is below the other.
pub proof fn zeros_are_equal()
    ensures
        !less_than(SIGN_BIT, ZERO),
        !less_than(ZERO, SIGN_BIT),
{
}

/// Nothing that is not NaN lies above positive infinity, and every NaN is
/// incomparable with it.
pub proof fn infinity_is_greatest(a: u64)
    ensures
        !less_than(INFINITY, a),
{
}

} // verus!
