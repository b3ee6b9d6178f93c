//! Decimal numbers from `rust_decimal`, as used for order prices and sizes.
use rust_decimal::Decimal;
use vstd::prelude::*;

verus! {

/// `rust_decimal::Decimal`, carried through the library as an opaque value.
#[verifier::external_type_specification]
#[verifier::external_body]
pub struct ExDecimal(Decimal);

/// The decimal that `Decimal::from_i128_with_scale(num, scale)` returns: the
/// number `num * 10^-scale`, stored with mantissa `num` and scale `scale`.
pub uninterp spec fn decimal_from_i128_with_scale(num: i128, scale: u32) -> Decimal;

/// Largest mantissa magnitude a `Decimal` holds (96 bits).
pub open spec fn max_decimal_mantissa() -> int {
    0xFFFF_FFFF_FFFF_FFFF_FFFF_FFFF
}

/// Calls `rust_decimal::Decimal::from_i128_with_scale`. That function panics
/// when the scale exceeds 28 or the mantissa does not fit in 96 bits; the
/// contract excludes those inputs and states that the result is a function of
/// the mantissa and scale alone.
#[verifier::external_body]
pub(crate) fn decimal_from_fixed(num: i128, scale: u32) -> (d: Decimal)
    requires
        scale <= 28,
        -max_decimal_mantissa() <= num <= max_decimal_mantissa(),
    ensures
        d == decimal_from_i128_with_scale(num, scale),
{
    Decimal::from_i128_with_scale(num, scale)
}

} // verus!
