//! Numbers as bit patterns of IEEE-754 doubles.
//!
//! Sign, ordering and equality of doubles can be read off the bit pattern
//! with integer comparisons. Everything that needs rounding (sums, products,
//! quotients, decimal conversion) is left to the embedding program.

use vstd::prelude::*;

verus! {

/// The pattern in which only the sign bit is set.
pub const SIGN_BIT: u64 = 0x8000_0000_0000_0000;

/// The pattern of positive infinity: all exponent bits set, mantissa zero.
pub const INFINITY_BITS: u64 = 0x7ff0_0000_0000_0000;

/// Whether the sign bit of the pattern is set.
pub open spec fn is_negative(bits: u64) -> bool {
    bits >= SIGN_BIT
}

/// The pattern with its sign bit cleared.
pub open spec fn magnitude(bits: u64) -> int {
    if bits >= SIGN_BIT {
        bits - SIGN_BIT
    } else {
        bits as int
    }
}

/// Whether the pattern encodes a NaN: exponent all ones, mantissa not zero.
pub open spec fn is_nan(bits: u64) -> bool {
    magnitude(bits) > INFINITY_BITS
}

/// Whether the pattern encodes positive or negative zero.
pub open spec fn is_zero(bits: u64) -> bool {
    magnitude(bits) == 0
}

/// The position of a double that is not a NaN on the number line of
/// patterns: doubles compare as these integers do, and both zeros sit at 0.
pub open spec fn ordinal(bits: u64) -> int {
    if is_negative(bits) {
        -magnitude(bits)
    } else {
        magnitude(bits)
    }
}

/// IEEE-754 equality: false when either side is a NaN, and the two zeros
/// are equal.
pub open spec fn equal(a: u64, b: u64) -> bool {
    !is_nan(a) && !is_nan(b) && ordinal(a) == ordinal(b)
}

/// IEEE-754 `<`: false when either side is a NaN.
pub open spec fn less(a: u64, b: u64) -> bool {
    !is_nan(a) && !is_nan(b) && ordinal(a) < ordinal(b)
}

/// IEEE-754 `<=`: false when either side is a NaN.
pub open spec fn less_equal(a: u64, b: u64) -> bool {
    !is_nan(a) && !is_nan(b) && ordinal(a) <= ordinal(b)
}

/// The pattern with its sign bit flipped, which is what negation does to
/// every double, NaNs included.
pub open spec fn negated(bits: u64) -> u64 {
    if bits >= SIGN_BIT {
        (bits - SIGN_BIT) as u64
    } else {
        (bits + SIGN_BIT) as u64
    }
}

fn split(bits: u64) -> (r: (bool, u64))
    ensures
        r.0 == is_negative(bits),
        r.1 == magnitude(bits),
{
    if bits >= SIGN_BIT {
        (true, bits - SIGN_BIT)
    } else {
        (false, bits)
    }
}

/// Whether the double is a NaN.
pub fn number_is_nan(bits: u64) -> (r: bool)
    ensures
        r == is_nan(bits),
{
    split(bits).1 > INFINITY_BITS
}

/// Whether the double is positive or negative zero.
pub fn number_is_zero(bits: u64) -> (r: bool)
    ensures
        r == is_zero(bits),
{
    split(bits).1 == 0
}

/// The double with the opposite sign.
pub fn number_negate(bits: u64) -> (r: u64)
    ensures
        r == negated(bits),
{
    if bits >= SIGN_BIT {
        bits - SIGN_BIT
    } else {
        bits + SIGN_BIT
    }
}

/// Compares two doubles that are not NaNs: whether `a` comes before `b`, or
/// at the same place when `or_equal` is set.
fn precedes(a: u64, b: u64, or_equal: bool) -> (r: bool)
    ensures
        r == (ordinal(a) < ordinal(b) || (or_equal && ordinal(a) == ordinal(b))),
{
    let (a_negative, a_magnitude) = split(a);
    let (b_negative, b_magnitude) = split(b);
    if a_negative && b_negative {
        a_magnitude > b_magnitude || (or_equal && a_magnitude == b_magnitude)
    } else if a_negative {
        a_magnitude > 0 || b_magnitude > 0 || or_equal
    } else if b_negative {
        or_equal && a_magnitude == 0 && b_magnitude == 0
    } else {
        a_magnitude < b_magnitude || (or_equal && a_magnitude == b_magnitude)
    }
}

/// Whether the doubles are equal.
pub fn number_equal(a: u64, b: u64) -> (r: bool)
    ensures
        r == equal(a, b),
{
    if number_is_nan(a) || number_is_nan(b) {
        false
    } else {
        precedes(a, b, true) && precedes(b, a, true)
    }
}

/// Whether `a` is less than `b`.
pub fn number_less(a: u64, b: u64) -> (r: bool)
    ensures
        r == less(a, b),
{
    if number_is_nan(a) || number_is_nan(b) {
        false
    } else {
        precedes(a, b, false)
    }
}

/// Whether `a` is less than or equal to `b`.
pub fn number_less_equal(a: u64, b: u64) -> (r: bool)
    ensures
        r == less_equal(a, b),
{
    if number_is_nan(a) || number_is_nan(b) {
        false
    } else {
        precedes(a, b, true)
    }
}

/// Negation is its own inverse and mirrors a double around zero.
pub proof fn lemma_negate_twice(bits: u64)
    ensures
        negated(negated(bits)) == bits,
        magnitude(negated(bits)) == magnitude(bits),
        !is_nan(bits) ==> ordinal(negated(bits)) == -ordinal(bits),
{
}

/// On doubles that are not NaNs the comparisons form a total order in which
/// equality is exactly "neither is less".
pub proof fn lemma_order_total(a: u64, b: u64)
    requires
        !is_nan(a),
        !is_nan(b),
    ensures
        less(a, b) || less(b, a) || equal(a, b),
        less_equal(a, b) <==> (less(a, b) || equal(a, b)),
        !(less(a, b) && less(b, a)),
{
}

} // verus!
