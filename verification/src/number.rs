//! Numbers of the language: IEEE 754 binary64 values, held as their 64-bit patterns.
//!
//! What can be read off a bit pattern is decided here. Arithmetic, and the passage between
//! numbers and text, is the host's; the evaluator asks for them and works with whatever
//! the host gives.

use vstd::prelude::*;

verus! {

/// The sign bit.
pub const SIGN: u64 = 0x8000_0000_0000_0000;

/// The eleven exponent bits.
pub const EXPONENT: u64 = 0x7ff0_0000_0000_0000;

/// The fifty-two fraction bits.
pub const FRACTION: u64 = 0x000f_ffff_ffff_ffff;

/// The quiet not-a-number that coercions produce.
pub const NAN: u64 = 0x7ff8_0000_0000_0000;

/// The number one.
pub const ONE: u64 = 0x3ff0_0000_0000_0000;

/// Positive zero.
pub const ZERO: u64 = 0;

/// A pattern is not-a-number when its exponent bits are all set and its fraction is not zero.
pub open spec fn is_nan_spec(bits: u64) -> bool {
    bits & EXPONENT == EXPONENT && bits & FRACTION != 0
}

/// A pattern is finite when its exponent bits are not all set.
pub open spec fn is_finite_spec(bits: u64) -> bool {
    bits & EXPONENT != EXPONENT
}

/// A pattern is a zero, of either sign, when all its bits but the sign are clear.
pub open spec fn is_zero_spec(bits: u64) -> bool {
    bits & !SIGN == 0
}

/// The pattern with its sign bit flipped.
pub open spec fn negated_spec(bits: u64) -> u64 {
    bits ^ SIGN
}

/// Numeric equality: a not-a-number equals nothing, the two zeros equal each other, and any
/// other two numbers are equal when their patterns are.
pub open spec fn equal_spec(left: u64, right: u64) -> bool {
    !is_nan_spec(left) && !is_nan_spec(right) && (left == right || (is_zero_spec(left)
        && is_zero_spec(right)))
}

/// The number that stands for a boolean: one for `true`, zero for `false`.
pub open spec fn from_bool_spec(b: bool) -> u64 {
    if b {
        ONE
    } else {
        ZERO
    }
}

/// Whether a pattern is a not-a-number.
#[verifier::when_used_as_spec(is_nan_spec)]
pub fn is_nan(bits: u64) -> (r: bool)
    ensures
        r == is_nan_spec(bits),
{
    bits & EXPONENT == EXPONENT && bits & FRACTION != 0
}

/// Whether a pattern is finite.
#[verifier::when_used_as_spec(is_finite_spec)]
pub fn is_finite(bits: u64) -> (r: bool)
    ensures
        r == is_finite_spec(bits),
{
    bits & EXPONENT != EXPONENT
}

/// Whether a pattern is a zero, of either sign.
#[verifier::when_used_as_spec(is_zero_spec)]
pub fn is_zero(bits: u64) -> (r: bool)
    ensures
        r == is_zero_spec(bits),
{
    bits & !SIGN == 0
}

/// The pattern with its sign bit flipped.
#[verifier::when_used_as_spec(negated_spec)]
pub fn negated(bits: u64) -> (r: u64)
    ensures
        r == negated_spec(bits),
{
    bits ^ SIGN
}

/// Whether two patterns are equal as numbers.
#[verifier::when_used_as_spec(equal_spec)]
pub fn equal(left: u64, right: u64) -> (r: bool)
    ensures
        r == equal_spec(left, right),
{
    !is_nan(left) && !is_nan(right) && (left == right || (is_zero(left) && is_zero(right)))
}

/// The number that stands for a boolean.
#[verifier::when_used_as_spec(from_bool_spec)]
pub fn from_bool(b: bool) -> (r: u64)
    ensures
        r == from_bool_spec(b),
{
    if b {
        ONE
    } else {
        ZERO
    }
}

/// A not-a-number is not finite.
pub proof fn law_nan_is_not_finite(bits: u64)
    ensures
        is_nan_spec(bits) ==> !is_finite_spec(bits),
{
}

/// Negating twice gives the number back, and negating keeps what kind of number it is.
pub proof fn law_negation(bits: u64)
    ensures
        negated_spec(negated_spec(bits)) == bits,
        is_nan_spec(negated_spec(bits)) == is_nan_spec(bits),
        is_finite_spec(negated_spec(bits)) == is_finite_spec(bits),
        is_zero_spec(negated_spec(bits)) == is_zero_spec(bits),
        negated_spec(bits) != bits,
{
    assert((bits ^ 0x8000_0000_0000_0000u64) ^ 0x8000_0000_0000_0000u64 == bits) by (bit_vector);
    assert((bits ^ 0x8000_0000_0000_0000u64) & 0x7ff0_0000_0000_0000u64 == bits
        & 0x7ff0_0000_0000_0000u64) by (bit_vector);
    assert((bits ^ 0x8000_0000_0000_0000u64) & 0x000f_ffff_ffff_ffffu64 == bits
        & 0x000f_ffff_ffff_ffffu64) by (bit_vector);
    assert((bits ^ 0x8000_0000_0000_0000u64) & !0x8000_0000_0000_0000u64 == bits
        & !0x8000_0000_0000_0000u64) by (bit_vector);
    assert((bits ^ 0x8000_0000_0000_0000u64) != bits) by (bit_vector);
}

/// Numeric equality is symmetric, and a number equals itself unless it is a
/// not-a-number.
pub proof fn law_equality(left: u64, right: u64)
    ensures
        equal_spec(left, right) == equal_spec(right, left),
        equal_spec(left, left) == !is_nan_spec(left),
{
}

/// The numbers that stand for the booleans are finite, and only the one for `true` counts
/// as true.
pub proof fn law_booleans_as_numbers()
    ensures
        is_finite_spec(from_bool_spec(true)),
        is_finite_spec(from_bool_spec(false)),
        !is_zero_spec(from_bool_spec(true)),
        is_zero_spec(from_bool_spec(false)),
        is_nan_spec(NAN),
        !is_finite_spec(NAN),
{
    assert(0x3ff0_0000_0000_0000u64 & 0x7ff0_0000_0000_0000u64 != 0x7ff0_0000_0000_0000u64)
        by (bit_vector);
    assert(0u64 & 0x7ff0_0000_0000_0000u64 != 0x7ff0_0000_0000_0000u64) by (bit_vector);
    assert(0x3ff0_0000_0000_0000u64 & !0x8000_0000_0000_0000u64 != 0) by (bit_vector);
    assert(0u64 & !0x8000_0000_0000_0000u64 == 0) by (bit_vector);
    assert(0x7ff8_0000_0000_0000u64 & 0x7ff0_0000_0000_0000u64 == 0x7ff0_0000_0000_0000u64)
        by (bit_vector);
    assert(0x7ff8_0000_0000_0000u64 & 0x000f_ffff_ffff_ffffu64 != 0) by (bit_vector);
}

} // verus!
