use vstd::prelude::*;

verus! {

/// Number of atomic units in one whole: rates and ratios are fixed-point
/// values with eighteen fractional decimal digits.
pub const DECIMAL_FRACTIONAL: u128 = 1_000_000_000_000_000_000;

/// A non-negative fixed-point decimal with eighteen fractional digits,
/// stored as a count of atomic units. `atomics == DECIMAL_FRACTIONAL`
/// represents the value one.
#[derive(Clone, Copy, Debug, PartialEq, Eq, Structural)]
pub struct Decimal18 {
    pub atomics: u128,
}

impl Decimal18 {
    /// True of a fractional rate: a value in [0, 1].
    pub open spec fn is_rate(self) -> bool {
        self.atomics <= DECIMAL_FRACTIONAL
    }

    /// The value one.
    pub fn one() -> (r: Decimal18)
        ensures
            r.atomics == DECIMAL_FRACTIONAL,
            r.is_rate(),
    {
        Decimal18 { atomics: DECIMAL_FRACTIONAL }
    }

    /// The rate `p` percent, for `p <= 100`.
    pub fn percent(p: u64) -> (r: Decimal18)
        requires
            p <= 100,
        ensures
            r.atomics == p as int * (DECIMAL_FRACTIONAL as int / 100),
            r.is_rate(),
    {
        Decimal18 { atomics: (p as u128) * 10_000_000_000_000_000 }
    }
}

/// The product of an amount and a fixed-point decimal, rounded toward zero:
/// `floor(amount * d)`.
pub open spec fn mul_floor(amount: u128, d: Decimal18) -> int {
    (amount as int * d.atomics as int) / (DECIMAL_FRACTIONAL as int)
}

/// Relies on `cosmwasm_std::Uint128::multiply_ratio`: the result is
/// `amount * numerator / denominator`, floored, computed with a 256-bit
/// intermediate product. The call panics when the denominator is zero or
/// when the quotient does not fit in a `u128`; both are excluded here.
#[verifier::external_body]
pub(crate) fn mul_ratio_floor(amount: u128, numerator: u128, denominator: u128) -> (r: u128)
    requires
        denominator != 0,
        (amount as int * numerator as int) / (denominator as int) <= u128::MAX,
    ensures
        r as int == (amount as int * numerator as int) / (denominator as int),
{
    cosmwasm_std::Uint128::new(amount).multiply_ratio(numerator, denominator).u128()
}

/// `floor(amount * d)` for a rate `d` in [0, 1].
pub fn mul_floor_rate(amount: u128, d: Decimal18) -> (r: u128)
    requires
        d.is_rate(),
    ensures
        r as int == mul_floor(amount, d),
        r <= amount,
{
    proof {
        lemma_mul_floor_le(amount, d);
    }
    mul_ratio_floor(amount, d.atomics, DECIMAL_FRACTIONAL)
}

/// A rate in [0, 1] never scales an amount up.
pub proof fn lemma_mul_floor_le(amount: u128, d: Decimal18)
    requires
        d.is_rate(),
    ensures
        0 <= mul_floor(amount, d) <= amount,
{
    let a = amount as int;
    let n = d.atomics as int;
    let f = DECIMAL_FRACTIONAL as int;
    assert(a * n <= a * f) by (nonlinear_arith)
        requires 0 <= a && 0 <= n <= f
    ;
    assert(0 <= a * n) by (nonlinear_arith)
        requires 0 <= a && 0 <= n
    ;
    assert((a * f) / f == a) by (nonlinear_arith)
        requires f > 0
    ;
    assert((a * n) / f <= (a * f) / f) by (nonlinear_arith)
        requires f > 0 && a * n <= a * f
    ;
    assert(0 <= (a * n) / f) by (nonlinear_arith)
        requires f > 0 && 0 <= a * n
    ;
}

} // verus!
