//! Fixed-point money: a count of ten-thousandths, held within the 96-bit
//! mantissa that a `rust_decimal::Decimal` of four fractional digits offers.
use rust_decimal::Decimal;
use vstd::prelude::*;

verus! {

/// The largest magnitude of a 96-bit decimal mantissa.
pub const MAX_UNITS: i128 = 79_228_162_514_264_337_593_543_950_335;

/// The number of fractional digits every amount carries.
pub const SCALE: u32 = 4;

/// The largest number of fractional digits that a decimal can carry.
pub const MAX_SCALE: u32 = 28;

/// Whether `n` ten-thousandths can be held by an amount.
pub open spec fn fits(n: int) -> bool {
    -MAX_UNITS <= n <= MAX_UNITS
}

/// An amount of money with exactly four fractional digits; `units` counts
/// ten-thousandths.
#[derive(Debug, Clone, Copy, PartialEq, Eq)]
pub struct Amount {
    pub units: i128,
}

/// `Decimal::checked_add` on two decimals of one scale, given by their
/// mantissas, and returned as mantissa and scale. Not proved: that the sum
/// keeps the scale and is exact whenever it fits the mantissa, and that
/// otherwise the call fails or answers at another scale.
#[verifier::external_body]
fn decimal_checked_add(a: i128, b: i128, scale: u32) -> (r: Option<(i128, u32)>)
    requires
        fits(a as int),
        fits(b as int),
        scale <= MAX_SCALE,
    ensures
        fits(a + b) ==> r == Some(((a + b) as i128, scale)),
        !fits(a + b) ==> (r matches Some(p) ==> p.1 != scale),
{
    let x = Decimal::from_i128_with_scale(a, scale);
    let y = Decimal::from_i128_with_scale(b, scale);
    x.checked_add(y).map(|d| (d.mantissa(), d.scale()))
}

/// `Decimal::checked_sub` on two decimals of one scale, given by their
/// mantissas, and returned as mantissa and scale. Not proved: that the
/// difference keeps the scale and is exact whenever it fits the mantissa,
/// and that otherwise the call fails or answers at another scale.
#[verifier::external_body]
fn decimal_checked_sub(a: i128, b: i128, scale: u32) -> (r: Option<(i128, u32)>)
    requires
        fits(a as int),
        fits(b as int),
        scale <= MAX_SCALE,
    ensures
        fits(a - b) ==> r == Some(((a - b) as i128, scale)),
        !fits(a - b) ==> (r matches Some(p) ==> p.1 != scale),
{
    let x = Decimal::from_i128_with_scale(a, scale);
    let y = Decimal::from_i128_with_scale(b, scale);
    x.checked_sub(y).map(|d| (d.mantissa(), d.scale()))
}

/// The `<` of `Decimal` on two decimals of one scale, given by their
/// mantissas. Not proved: that decimals of one scale are ordered as their
/// mantissas are.
#[verifier::external_body]
fn decimal_less_than(a: i128, b: i128, scale: u32) -> (r: bool)
    requires
        fits(a as int),
        fits(b as int),
        scale <= MAX_SCALE,
    ensures
        r == (a < b),
{
    let x = Decimal::from_i128_with_scale(a, scale);
    let y = Decimal::from_i128_with_scale(b, scale);
    x < y
}

/// Ten to the power of `n`.
pub open spec fn pow10(n: nat) -> int
    decreases n,
{
    if n == 0 {
        1
    } else {
        10 * pow10((n - 1) as nat)
    }
}

/// A decimal brought up towards `target` fractional digits: the mantissa
/// takes one more digit as long as it then still fits, so the value is kept
/// and the scale may stop short of `target`.
pub open spec fn scaled_up(mantissa: int, scale: nat, target: nat) -> (int, nat)
    decreases target - scale,
{
    if scale < target && fits(mantissa * 10) {
        scaled_up(mantissa * 10, scale + 1, target)
    } else {
        (mantissa, scale)
    }
}

/// A decimal cut down to `target` fractional digits, fewer than it has: the
/// surplus digits are dropped, and the magnitude is raised by one where the
/// first dropped digit is five or more.
pub open spec fn rounded_down(mantissa: int, scale: nat, target: nat) -> (int, nat) {
    let magnitude = if mantissa < 0 {
        -mantissa
    } else {
        mantissa
    };
    let kept = magnitude / pow10((scale - target) as nat);
    let digit = (magnitude / pow10((scale - target - 1) as nat)) % 10;
    let rounded = if digit >= 5 {
        kept + 1
    } else {
        kept
    };
    (
        if mantissa < 0 {
            -rounded
        } else {
            rounded
        },
        target,
    )
}

/// Mantissa and scale of the decimal `mantissa / 10^scale` once it was
/// asked to carry `target` fractional digits.
pub open spec fn rescaled(mantissa: int, scale: nat, target: nat) -> (int, nat) {
    if scale == target {
        (mantissa, scale)
    } else if mantissa == 0 {
        (0, target)
    } else if scale > target {
        rounded_down(mantissa, scale, target)
    } else {
        scaled_up(mantissa, scale, target)
    }
}

/// `Decimal::rescale`, on a decimal given and returned as mantissa and
/// scale. Not proved: that a decimal of the scale asked for is left alone
/// and zero takes that scale; that surplus digits are dropped with the
/// magnitude rounded up on a first dropped digit of five or more; and that
/// missing digits are added as far as the mantissa can hold them.
#[verifier::external_body]
fn decimal_rescale(mantissa: i128, scale: u32, target: u32) -> (r: (i128, u32))
    requires
        fits(mantissa as int),
        scale <= MAX_SCALE,
        target <= MAX_SCALE,
    ensures
        (r.0 as int, r.1 as nat) == rescaled(mantissa as int, scale as nat, target as nat),
{
    let mut decimal = Decimal::from_i128_with_scale(mantissa, scale);
    decimal.rescale(target);
    (decimal.mantissa(), decimal.scale())
}

impl Amount {
    /// The amount that a rescaled decimal stands for: its mantissa, if it
    /// reached four fractional digits.
    pub open spec fn spec_from_rescaled(parts: (int, nat)) -> Option<Amount> {
        if parts.1 == SCALE && fits(parts.0) {
            Some(Amount { units: parts.0 as i128 })
        } else {
            None
        }
    }

    /// The amount that a decimal of this mantissa and scale stands for once
    /// it was brought to four fractional digits.
    pub fn from_rescaled(mantissa: i128, scale: u32) -> (r: Option<Amount>)
        ensures
            r == Amount::spec_from_rescaled((mantissa as int, scale as nat)),
    {
        if scale == SCALE {
            Amount::from_units(mantissa)
        } else {
            None
        }
    }

    /// The amount for the decimal `mantissa / 10^scale`, brought to four
    /// fractional digits as `Decimal::rescale` does it. `None` for what is
    /// no decimal, and for a decimal too large to carry four digits.
    pub fn from_decimal_parts(mantissa: i128, scale: u32) -> (r: Option<Amount>)
        ensures
            r == (if fits(mantissa as int) && scale <= MAX_SCALE {
                Amount::spec_from_rescaled(
                    rescaled(mantissa as int, scale as nat, SCALE as nat),
                )
            } else {
                None::<Amount>
            }),
            fits(mantissa as int) && scale == SCALE ==> r == Some(Amount { units: mantissa }),
            r matches Some(amount) ==> amount.wf(),
    {
        if -MAX_UNITS <= mantissa && mantissa <= MAX_UNITS && scale <= MAX_SCALE {
            let parts = decimal_rescale(mantissa, scale, SCALE);
            Amount::from_rescaled(parts.0, parts.1)
        } else {
            None
        }
    }

    /// An amount is well formed when its units fit the decimal mantissa.
    pub open spec fn wf(&self) -> bool {
        fits(self.units as int)
    }

    /// The sum of two amounts, where it can be held.
    pub open spec fn spec_checked_add(self, other: Amount) -> Option<Amount> {
        if fits(self.units + other.units) {
            Some(Amount { units: (self.units + other.units) as i128 })
        } else {
            None
        }
    }

    /// The difference of two amounts, where it can be held.
    pub open spec fn spec_checked_sub(self, other: Amount) -> Option<Amount> {
        if fits(self.units - other.units) {
            Some(Amount { units: (self.units - other.units) as i128 })
        } else {
            None
        }
    }

    /// The amount of `units` ten-thousandths, if that many can be held.
    pub fn from_units(units: i128) -> (r: Option<Amount>)
        ensures
            r == (if fits(units as int) {
                Some(Amount { units })
            } else {
                None::<Amount>
            }),
    {
        if -MAX_UNITS <= units && units <= MAX_UNITS {
            Some(Amount { units })
        } else {
            None
        }
    }

    /// Nothing, with four fractional digits.
    pub fn zero() -> (r: Amount)
        ensures
            r == (Amount { units: 0 }),
    {
        Amount { units: 0 }
    }

    /// Exact addition; `None` when the sum cannot be held.
    pub fn checked_add(self, other: Amount) -> (r: Option<Amount>)
        requires
            self.wf(),
            other.wf(),
        ensures
            r == self.spec_checked_add(other),
    {
        match decimal_checked_add(self.units, other.units, SCALE) {
            Some((mantissa, scale)) => {
                if scale == SCALE {
                    Some(Amount { units: mantissa })
                } else {
                    None
                }
            },
            None => None,
        }
    }

    /// Exact subtraction; `None` when the difference cannot be held.
    pub fn checked_sub(self, other: Amount) -> (r: Option<Amount>)
        requires
            self.wf(),
            other.wf(),
        ensures
            r == self.spec_checked_sub(other),
    {
        match decimal_checked_sub(self.units, other.units, SCALE) {
            Some((mantissa, scale)) => {
                if scale == SCALE {
                    Some(Amount { units: mantissa })
                } else {
                    None
                }
            },
            None => None,
        }
    }

    /// Whether this amount is strictly smaller than `other`.
    pub fn less_than(self, other: Amount) -> (r: bool)
        requires
            self.wf(),
            other.wf(),
        ensures
            r == (self.units < other.units),
    {
        decimal_less_than(self.units, other.units, SCALE)
    }
}

/// Bringing a decimal up towards more fractional digits keeps its value:
/// the mantissa is multiplied by ten once for each digit gained, and still
/// fits if it did before.
pub proof fn lemma_scaled_up_keeps_value(mantissa: int, scale: nat, target: nat)
    requires
        scale <= target,
    ensures
        scale <= scaled_up(mantissa, scale, target).1 <= target,
        scaled_up(mantissa, scale, target).0 == mantissa * pow10(
            (scaled_up(mantissa, scale, target).1 - scale) as nat,
        ),
        fits(mantissa) ==> fits(scaled_up(mantissa, scale, target).0),
    decreases target - scale,
{
    if scale < target && fits(mantissa * 10) {
        lemma_scaled_up_keeps_value(mantissa * 10, scale + 1, target);
        let gained = (scaled_up(mantissa, scale, target).1 - scale) as nat;
        let rest = pow10((gained - 1) as nat);
        assert(pow10(gained) == 10 * rest);
        assert((mantissa * 10) * rest == mantissa * (10 * rest)) by (nonlinear_arith);
    } else {
        assert(pow10(0) == 1);
    }
}

} // verus!
