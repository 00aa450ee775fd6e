//! The numeric order on prices, stated over IEEE 754 bit patterns.
//!
//! A price is the raw bit pattern of a double (`f64::to_bits`): sign bit,
//! eleven exponent bits, fifty-two fraction bits. For every pair of doubles
//! that are numbers (not NaN), their numeric order agrees with the integer
//! order of [`price_key`], the classic sign-magnitude reading of the bits;
//! the two zeros receive the neighbouring keys `-1` and `0`, so they stay
//! numerically interchangeable wherever only the order matters.
//!
//! The pointwise minimum and maximum below follow the usual "ignore NaN"
//! policy of floating-point min/max: a NaN operand loses against any number,
//! and only two NaN operands produce a NaN result. This is the
//! total-order-safe choice documented with the signal calculations.

use vstd::prelude::*;

verus! {

/// Bit pattern of `f64::MAX`, the largest finite double.
pub const F64_MAX_BITS: u64 = 0x7FEF_FFFF_FFFF_FFFF;

/// Bit pattern of `f64::MIN`, the most negative finite double.
pub const F64_MIN_BITS: u64 = 0xFFEF_FFFF_FFFF_FFFF;

/// Bit pattern of `1.0`.
pub const ONE_BITS: u64 = 0x3FF0_0000_0000_0000;

/// The eleven exponent bits of a price.
pub open spec fn exponent_bits(b: u64) -> u64 {
    (b >> 52) & 0x7FF
}

/// The fifty-two fraction bits of a price.
pub open spec fn fraction_bits(b: u64) -> u64 {
    b & 0x000F_FFFF_FFFF_FFFF
}

/// Everything but the sign bit.
pub open spec fn magnitude_bits(b: u64) -> u64 {
    b & 0x7FFF_FFFF_FFFF_FFFF
}

/// The sign bit, `1` for negative prices.
pub open spec fn sign_bit(b: u64) -> u64 {
    b >> 63
}

/// A price is NaN exactly when the exponent is all ones and the fraction is
/// not zero.
pub open spec fn is_nan_bits(b: u64) -> bool {
    exponent_bits(b) == 0x7FF && fraction_bits(b) != 0
}

/// A price is zero exactly when everything but the sign bit is zero; both
/// the positive and the negative zero qualify.
pub open spec fn is_zero_bits(b: u64) -> bool {
    magnitude_bits(b) == 0
}

/// Order key of a price: negative prices in descending magnitude below,
/// non-negative prices in ascending magnitude above. On prices that are
/// numbers the keys are ordered as the doubles are.
pub open spec fn price_key(b: u64) -> int {
    if sign_bit(b) == 1 {
        -1 - (magnitude_bits(b) as int)
    } else {
        magnitude_bits(b) as int
    }
}

/// The smaller operand by [`price_key`], preferring the number when one
/// operand is NaN.
pub open spec fn min_bits(a: u64, b: u64) -> u64 {
    if is_nan_bits(b) {
        a
    } else if is_nan_bits(a) {
        b
    } else if price_key(a) <= price_key(b) {
        a
    } else {
        b
    }
}

/// The larger operand by [`price_key`], preferring the number when one
/// operand is NaN.
pub open spec fn max_bits(a: u64, b: u64) -> u64 {
    if is_nan_bits(b) {
        a
    } else if is_nan_bits(a) {
        b
    } else if price_key(a) >= price_key(b) {
        a
    } else {
        b
    }
}

/// Decides [`is_nan_bits`].
pub fn is_nan(b: u64) -> (r: bool)
    ensures
        r == is_nan_bits(b),
{
    (b >> 52) & 0x7FF == 0x7FF && b & 0x000F_FFFF_FFFF_FFFF != 0
}

/// Decides [`is_zero_bits`].
pub fn is_zero(b: u64) -> (r: bool)
    ensures
        r == is_zero_bits(b),
{
    b & 0x7FFF_FFFF_FFFF_FFFF == 0
}

/// Decides the order of two prices by their keys.
pub fn price_le(a: u64, b: u64) -> (r: bool)
    ensures
        r == (price_key(a) <= price_key(b)),
{
    let sa: u64 = a >> 63;
    let sb: u64 = b >> 63;
    let ma: u64 = a & 0x7FFF_FFFF_FFFF_FFFF;
    let mb: u64 = b & 0x7FFF_FFFF_FFFF_FFFF;
    if sa == 1 {
        if sb == 1 {
            mb <= ma
        } else {
            true
        }
    } else {
        if sb == 1 {
            false
        } else {
            ma <= mb
        }
    }
}

/// Computes [`min_bits`].
pub fn price_min(a: u64, b: u64) -> (r: u64)
    ensures
        r == min_bits(a, b),
{
    if is_nan(b) {
        a
    } else if is_nan(a) {
        b
    } else if price_le(a, b) {
        a
    } else {
        b
    }
}

/// Computes [`max_bits`].
pub fn price_max(a: u64, b: u64) -> (r: u64)
    ensures
        r == max_bits(a, b),
{
    if is_nan(b) {
        a
    } else if is_nan(a) {
        b
    } else if price_le(b, a) {
        a
    } else {
        b
    }
}

/// The two fold seeds are finite numbers, not NaN.
pub proof fn lemma_seeds_are_numbers()
    ensures
        !is_nan_bits(F64_MAX_BITS),
        !is_nan_bits(F64_MIN_BITS),
{
    assert((0x7FEF_FFFF_FFFF_FFFFu64 >> 52) & 0x7FF == 0x7FE) by (bit_vector);
    assert((0xFFEF_FFFF_FFFF_FFFFu64 >> 52) & 0x7FF == 0x7FE) by (bit_vector);
}

} // verus!
