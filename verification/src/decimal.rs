//! Fixed-point numbers with eighteen fractional digits, computed by
//! `cosmwasm_std::Decimal`.

use vstd::prelude::*;

verus! {

/// The number of atomic units in one whole.
pub const DECIMAL_FRACTIONAL: u128 = 1_000_000_000_000_000_000;

/// The number of fractional digits.
pub const DECIMAL_PLACES: u32 = 18;

/// A non-negative fixed-point number: `atomics / 10^18`.
#[derive(Clone, Copy, Debug, PartialEq, Eq, Structural)]
pub struct FixedPoint {
    pub atomics: u128,
}

/// Ten to the power `n`.
pub open spec fn pow10(n: nat) -> nat
    decreases n,
{
    if n == 0 {
        1
    } else {
        10 * pow10((n - 1) as nat)
    }
}

pub proof fn lemma_pow10_places()
    ensures
        pow10(DECIMAL_PLACES as nat) == DECIMAL_FRACTIONAL,
{
    reveal_with_fuel(pow10, 19);
}

#[verifier::external_type_specification]
#[verifier::external_body]
pub struct ExDecimalRangeExceeded(cosmwasm_std::DecimalRangeExceeded);

#[verifier::external_type_specification]
#[verifier::external_body]
pub struct ExOverflowError(cosmwasm_std::OverflowError);

/// `atomics / 10^decimal_places`, counted in units of `10^-18` and rounded
/// toward zero.
pub open spec fn scaled_atomics(atomics: u128, decimal_places: u32) -> int {
    if decimal_places <= DECIMAL_PLACES {
        atomics * pow10((DECIMAL_PLACES - decimal_places) as nat)
    } else {
        (atomics as int) / (pow10((decimal_places - DECIMAL_PLACES) as nat) as int)
    }
}

/// `cosmwasm_std::Decimal::from_atomics`: the number `atomics /
/// 10^decimal_places` brought to eighteen places, rounding toward zero where
/// places are dropped. The call fails exactly when the result does not fit in
/// 128 bits.
#[verifier::external_body]
pub(crate) fn decimal_from_atomics(atomics: u128, decimal_places: u32) -> (r: Result<FixedPoint, cosmwasm_std::DecimalRangeExceeded>)
    ensures
        r is Ok <==> scaled_atomics(atomics, decimal_places) <= u128::MAX,
        r matches Ok(d) ==> d.atomics == scaled_atomics(atomics, decimal_places),
{
    match cosmwasm_std::Decimal::from_atomics(atomics, decimal_places) {
        Ok(d) => Ok(FixedPoint { atomics: d.atomics().u128() }),
        Err(e) => Err(e),
    }
}

/// `cosmwasm_std::Decimal::checked_mul`: the product rounded toward zero to
/// eighteen places; fails exactly when that does not fit in 128 bits.
#[verifier::external_body]
pub(crate) fn decimal_checked_mul(a: FixedPoint, b: FixedPoint) -> (r: Result<FixedPoint, cosmwasm_std::OverflowError>)
    ensures
        r is Ok <==> (a.atomics * b.atomics) / (DECIMAL_FRACTIONAL as int) <= u128::MAX,
        r matches Ok(d) ==> d.atomics == (a.atomics * b.atomics) / (DECIMAL_FRACTIONAL as int),
{
    match cosmwasm_std::Decimal::raw(a.atomics).checked_mul(cosmwasm_std::Decimal::raw(b.atomics)) {
        Ok(d) => Ok(FixedPoint { atomics: d.atomics().u128() }),
        Err(e) => Err(e),
    }
}

/// `cosmwasm_std::Decimal::checked_sub`: the difference; fails exactly when
/// `b` is larger than `a`.
#[verifier::external_body]
pub(crate) fn decimal_checked_sub(a: FixedPoint, b: FixedPoint) -> (r: Result<FixedPoint, cosmwasm_std::OverflowError>)
    ensures
        r is Ok <==> b.atomics <= a.atomics,
        r matches Ok(d) ==> d.atomics == a.atomics - b.atomics,
{
    match cosmwasm_std::Decimal::raw(a.atomics).checked_sub(cosmwasm_std::Decimal::raw(b.atomics)) {
        Ok(d) => Ok(FixedPoint { atomics: d.atomics().u128() }),
        Err(e) => Err(e),
    }
}

/// `cosmwasm_std::Decimal::to_uint_floor`: the whole part.
#[verifier::external_body]
pub(crate) fn decimal_to_uint_floor(a: FixedPoint) -> (whole: u128)
    ensures
        whole == a.atomics / DECIMAL_FRACTIONAL,
{
    cosmwasm_std::Decimal::raw(a.atomics).to_uint_floor().u128()
}

} // verus!
