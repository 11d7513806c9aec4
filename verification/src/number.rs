//! Numbers, as the library holds them.
//!
//! A number is an IEEE-754 binary64 value kept as its 64-bit pattern: one
//! sign bit, eleven exponent bits, fifty-two fraction bits. What can be read
//! off the pattern (equality, order, sign change, whether the value is a
//! whole count) is decided here; arithmetic and the conversion from and to
//! text are asked of the host.

use vstd::prelude::*;

verus! {

/// The bit that holds the sign.
pub const SIGN_BIT: u64 = 0x8000_0000_0000_0000;

/// The bits that hold the exponent.
pub const EXPONENT_BITS: u64 = 0x7ff0_0000_0000_0000;

/// The bits that hold the fraction.
pub const FRACTION_BITS: u64 = 0x000f_ffff_ffff_ffff;

/// The bits that hold the magnitude: all but the sign.
pub const MAGNITUDE_BITS: u64 = 0x7fff_ffff_ffff_ffff;

/// The pattern of positive zero.
pub const ZERO: u64 = 0;

/// Whether the pattern holds no number (NaN): all exponent bits set and a
/// fraction that is not zero.
pub open spec fn spec_is_nan(bits: u64) -> bool {
    bits & EXPONENT_BITS == EXPONENT_BITS && bits & FRACTION_BITS != 0
}

/// Whether the pattern holds zero, of either sign.
pub open spec fn spec_is_zero(bits: u64) -> bool {
    bits & MAGNITUDE_BITS == 0
}

/// Whether the sign bit is set.
pub open spec fn spec_is_negative(bits: u64) -> bool {
    bits & SIGN_BIT != 0
}

/// Whether two patterns hold equal numbers: neither is NaN, and they are
/// the same pattern or both zero.
pub open spec fn spec_number_equal(a: u64, b: u64) -> bool {
    !spec_is_nan(a) && !spec_is_nan(b) && (a == b || (spec_is_zero(a) && spec_is_zero(b)))
}

/// Whether the number of `a` is less than that of `b`: neither is NaN, they
/// are not both zero, and `a` comes first by sign and then by magnitude.
pub open spec fn spec_number_less(a: u64, b: u64) -> bool {
    !spec_is_nan(a) && !spec_is_nan(b) && !(spec_is_zero(a) && spec_is_zero(b)) && (if
        spec_is_negative(a) && !spec_is_negative(b) {
        true
    } else if !spec_is_negative(a) && spec_is_negative(b) {
        false
    } else if !spec_is_negative(a) {
        (a & MAGNITUDE_BITS) < (b & MAGNITUDE_BITS)
    } else {
        (a & MAGNITUDE_BITS) > (b & MAGNITUDE_BITS)
    })
}

/// The pattern of the number with the opposite sign.
pub open spec fn spec_negate(bits: u64) -> u64 {
    bits ^ SIGN_BIT
}

#[verifier::when_used_as_spec(spec_is_nan)]
pub fn is_nan(bits: u64) -> (r: bool)
    ensures
        r == spec_is_nan(bits),
{
    bits & EXPONENT_BITS == EXPONENT_BITS && bits & FRACTION_BITS != 0
}

#[verifier::when_used_as_spec(spec_is_zero)]
pub fn is_zero(bits: u64) -> (r: bool)
    ensures
        r == spec_is_zero(bits),
{
    bits & MAGNITUDE_BITS == 0
}

#[verifier::when_used_as_spec(spec_is_negative)]
pub fn is_negative(bits: u64) -> (r: bool)
    ensures
        r == spec_is_negative(bits),
{
    bits & SIGN_BIT != 0
}

#[verifier::when_used_as_spec(spec_number_equal)]
pub fn number_equal(a: u64, b: u64) -> (r: bool)
    ensures
        r == spec_number_equal(a, b),
{
    !is_nan(a) && !is_nan(b) && (a == b || (is_zero(a) && is_zero(b)))
}

#[verifier::when_used_as_spec(spec_number_less)]
pub fn number_less(a: u64, b: u64) -> (r: bool)
    ensures
        r == spec_number_less(a, b),
{
    !is_nan(a) && !is_nan(b) && !(is_zero(a) && is_zero(b)) && (if is_negative(a) && !is_negative(
        b,
    ) {
        true
    } else if !is_negative(a) && is_negative(b) {
        false
    } else if !is_negative(a) {
        (a & MAGNITUDE_BITS) < (b & MAGNITUDE_BITS)
    } else {
        (a & MAGNITUDE_BITS) > (b & MAGNITUDE_BITS)
    })
}

#[verifier::when_used_as_spec(spec_negate)]
pub fn negate(bits: u64) -> (r: u64)
    ensures
        r == spec_negate(bits),
{
    bits ^ SIGN_BIT
}

/// The biased exponent of the pattern.
pub open spec fn exponent(bits: u64) -> u64 {
    (bits & EXPONENT_BITS) >> 52
}

/// The significand of a normal number: the fraction with the implied
/// leading one.
pub open spec fn significand(bits: u64) -> u64 {
    (bits & FRACTION_BITS) | 0x0010_0000_0000_0000
}

/// How often a text is repeated when it is multiplied by the number of
/// `bits`: the number itself if it is a whole number that is not negative
/// (at most `i64::MAX`, which also stands for every larger number and for
/// positive infinity), and nothing if the number is negative, has a
/// fractional part or is NaN. Zero of either sign repeats the text no times.
pub open spec fn spec_repetitions(bits: u64) -> Option<u64> {
    let e = exponent(bits);
    if spec_is_zero(bits) {
        Some(0)
    } else if spec_is_nan(bits) || spec_is_negative(bits) || e < 1023 {
        None
    } else if e >= 1023 + 63 {
        Some(0x7fff_ffff_ffff_ffff)
    } else if e >= 1023 + 52 {
        Some(significand(bits) << ((e - 1075) as u64))
    } else if significand(bits) & (((1u64 << ((1075 - e) as u64)) - 1) as u64) == 0 {
        Some(significand(bits) >> ((1075 - e) as u64))
    } else {
        None
    }
}

#[verifier::when_used_as_spec(spec_repetitions)]
pub fn repetitions(bits: u64) -> (r: Option<u64>)
    ensures
        r == spec_repetitions(bits),
{
    let e: u64 = (bits & EXPONENT_BITS) >> 52;
    assert(e <= 0x7ff) by (bit_vector)
        requires
            e == (bits & 0x7ff0_0000_0000_0000) >> 52,
    ;
    let significand: u64 = (bits & FRACTION_BITS) | 0x0010_0000_0000_0000;
    if is_zero(bits) {
        Some(0)
    } else if is_nan(bits) || is_negative(bits) || e < 1023 {
        None
    } else if e >= 1023 + 63 {
        Some(0x7fff_ffff_ffff_ffff)
    } else if e >= 1023 + 52 {
        Some(significand << (e - 1075))
    } else {
        let shift: u64 = 1075 - e;
        assert((1u64 << shift) >= 1) by (bit_vector)
            requires
                shift <= 52,
        ;
        if significand & ((1u64 << shift) - 1) == 0 {
            Some(significand >> shift)
        } else {
            None
        }
    }
}

} // verus!
