//! Fixed-point decimal arithmetic on a scaled integer.
//!
//! A [`Decimal`] stores a non-negative quantity as an integer count of
//! atto-units: `atto` counts units of 10^-18, so one whole unit is
//! [`DECIMAL_FRACTIONAL`] atto-units. The scale is a compatibility-relevant
//! constant: exchange rates, reward indices and pending-reward balances are
//! all persisted at this scale, and the per-update truncation error of a
//! ratio stays below one atto-unit.
//!
//! Every operation that could overflow the carrier returns `None` instead of
//! wrapping; callers abort their whole state transition on `None`.

use vstd::prelude::*;

verus! {

/// Number of atto-units in one whole unit (10^18).
pub const DECIMAL_FRACTIONAL: u128 = 1_000_000_000_000_000_000;

/// A non-negative fixed-point number with 18 fractional decimal digits,
/// stored as atto-units.
#[derive(Clone, Copy, PartialEq, Eq, Structural, Debug)]
pub struct Decimal {
    pub atto: u128,
}

/// floor(num * 10^18 / den) as a mathematical integer; the value of the
/// ratio num/den at the decimal scale. Meaningful for den > 0.
pub open spec fn ratio_atto(num: int, den: int) -> int {
    num * (DECIMAL_FRACTIONAL as int) / den
}

/// floor(amount * d) for an integer amount and a decimal with the given
/// atto value: the integer part of their product.
pub open spec fn mul_floor(amount: int, atto: int) -> int {
    amount * atto / (DECIMAL_FRACTIONAL as int)
}

/// floor(amount / d) for an integer amount and a decimal with the given
/// atto value: how many whole units of d fit into amount. Meaningful for
/// atto > 0.
pub open spec fn div_floor(amount: int, atto: int) -> int {
    amount * (DECIMAL_FRACTIONAL as int) / atto
}

/// Scaling a ratio back by its denominator never exceeds the scaled
/// numerator: den * floor(num * S / den) <= num * S, and the ratio is
/// non-negative.
pub proof fn lemma_ratio_bounds(num: int, den: int)
    requires
        0 <= num,
        0 < den,
    ensures
        0 <= ratio_atto(num, den),
        den * ratio_atto(num, den) <= num * (DECIMAL_FRACTIONAL as int),
        num * (DECIMAL_FRACTIONAL as int) - den * ratio_atto(num, den) < den,
{
    let s = DECIMAL_FRACTIONAL as int;
    let x = num * s;
    assert(num * s >= 0) by (nonlinear_arith)
        requires
            num >= 0,
            s > 0,
    ;
    vstd::arithmetic::div_mod::lemma_remainder(x, den);
    vstd::arithmetic::div_mod::lemma_div_pos_is_pos(x, den);
    assert(den * (x / den) == (x / den) * den) by (nonlinear_arith);
}

/// A ratio grows with its numerator.
pub proof fn lemma_ratio_monotone(a: int, b: int, den: int)
    requires
        0 <= a <= b,
        0 < den,
    ensures
        ratio_atto(a, den) <= ratio_atto(b, den),
{
    let s = DECIMAL_FRACTIONAL as int;
    assert(a * s <= b * s) by (nonlinear_arith)
        requires
            a <= b,
            s > 0,
    ;
    vstd::arithmetic::div_mod::lemma_div_is_ordered(a * s, b * s, den);
}

impl Decimal {
    /// The decimal 0.
    pub fn zero() -> (r: Decimal)
        ensures
            r.atto == 0,
    {
        Decimal { atto: 0 }
    }

    /// The decimal 1.0.
    pub fn one() -> (r: Decimal)
        ensures
            r.atto == DECIMAL_FRACTIONAL,
    {
        Decimal { atto: DECIMAL_FRACTIONAL }
    }

    pub fn is_zero(&self) -> (r: bool)
        ensures
            r == (self.atto == 0),
    {
        self.atto == 0
    }

    pub fn lt(&self, other: &Decimal) -> (r: bool)
        ensures
            r == (self.atto < other.atto),
    {
        self.atto < other.atto
    }

    pub fn le(&self, other: &Decimal) -> (r: bool)
        ensures
            r == (self.atto <= other.atto),
    {
        self.atto <= other.atto
    }

    /// The ratio num/den, rounded down to the nearest atto-unit.
    /// `None` when den is zero or the scaled numerator does not fit.
    pub fn from_ratio(num: u128, den: u128) -> (r: Option<Decimal>)
        ensures
            r is Some <==> den != 0 && num * DECIMAL_FRACTIONAL <= u128::MAX,
            r is Some ==> r->0.atto == ratio_atto(num as int, den as int),
    {
        if den == 0 {
            None
        } else {
            match num.checked_mul(DECIMAL_FRACTIONAL) {
                Some(scaled) => Some(Decimal { atto: scaled / den }),
                None => None,
            }
        }
    }

    /// Sum of two decimals; `None` on overflow of the carrier.
    pub fn checked_add(self, other: Decimal) -> (r: Option<Decimal>)
        ensures
            r is Some <==> self.atto + other.atto <= u128::MAX,
            r is Some ==> r->0.atto == self.atto + other.atto,
    {
        match self.atto.checked_add(other.atto) {
            Some(a) => Some(Decimal { atto: a }),
            None => None,
        }
    }

    /// Difference of two decimals; `None` when it would be negative.
    pub fn checked_sub(self, other: Decimal) -> (r: Option<Decimal>)
        ensures
            r is Some <==> other.atto <= self.atto,
            r is Some ==> r->0.atto == self.atto - other.atto,
    {
        match self.atto.checked_sub(other.atto) {
            Some(a) => Some(Decimal { atto: a }),
            None => None,
        }
    }

    /// The product of an integer amount and this decimal, rounded down to an
    /// integer; `None` when the intermediate product does not fit.
    pub fn mul_floor(self, amount: u128) -> (r: Option<u128>)
        ensures
            r is Some <==> amount * self.atto <= u128::MAX,
            r is Some ==> r->0 == mul_floor(amount as int, self.atto as int),
    {
        match amount.checked_mul(self.atto) {
            Some(p) => Some(p / DECIMAL_FRACTIONAL),
            None => None,
        }
    }

    /// The product of an integer amount and this decimal, kept exactly as a
    /// decimal (an integer times a decimal needs no rounding); `None` when
    /// the product does not fit the carrier.
    pub fn mul_int_exact(self, amount: u128) -> (r: Option<Decimal>)
        ensures
            r is Some <==> amount * self.atto <= u128::MAX,
            r is Some ==> r->0.atto == amount * self.atto,
    {
        match amount.checked_mul(self.atto) {
            Some(p) => Some(Decimal { atto: p }),
            None => None,
        }
    }

    /// How many whole units of this decimal fit into the integer amount:
    /// floor(amount / self). `None` when self is zero or the scaled amount
    /// does not fit.
    pub fn div_floor(self, amount: u128) -> (r: Option<u128>)
        ensures
            r is Some <==> self.atto != 0 && amount * DECIMAL_FRACTIONAL <= u128::MAX,
            r is Some ==> r->0 == div_floor(amount as int, self.atto as int),
    {
        if self.atto == 0 {
            None
        } else {
            match amount.checked_mul(DECIMAL_FRACTIONAL) {
                Some(scaled) => Some(scaled / self.atto),
                None => None,
            }
        }
    }

    /// The integer part of this decimal.
    pub fn floor_u128(self) -> (r: u128)
        ensures
            r == self.atto / DECIMAL_FRACTIONAL,
    {
        self.atto / DECIMAL_FRACTIONAL
    }

    /// The fractional part of this decimal: everything below one whole unit.
    pub fn fract(self) -> (r: Decimal)
        ensures
            r.atto == self.atto % DECIMAL_FRACTIONAL,
            self.atto == (self.atto / DECIMAL_FRACTIONAL) * DECIMAL_FRACTIONAL + r.atto,
    {
        Decimal { atto: self.atto % DECIMAL_FRACTIONAL }
    }
}

} // verus!
