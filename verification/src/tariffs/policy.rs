//! The decisions OCPI leaves open: rounding, quantisation and currency precision, as a
//! parameter of pricing rather than a hidden constant.

use vstd::prelude::*;

use crate::tariffs::codes::Quantisation;
use crate::types::datetime::pow10;
use crate::types::number::{
    ceiling, decimal_checked_product, decimal_checked_quotient, decimal_rounded, Number, RoundingStrategy,
    MAX_MANTISSA,
};

verus! {

/// How and when to round money.
#[derive(Clone, Copy, Debug, PartialEq, Eq, Structural)]
#[non_exhaustive]
pub struct PricingPolicy {
    /// Decimal places each dimension's cost is rounded to before the totals are summed.
    pub component_decimals: u32,
    /// Decimal places the final total is rounded to.
    pub currency_decimals: u32,
    /// How a value exactly halfway between two representable amounts is resolved.
    pub rounding: RoundingStrategy,
    /// Whether to apply `step_size` block billing.
    pub quantisation: Quantisation,
}

impl Default for PricingPolicy {
    /// Four component decimals (the precision OCPI names for its numbers), two currency
    /// decimals, half away from zero, and `step_size` billing.
    fn default() -> (p: Self)
        ensures
            p.component_decimals == 4,
            p.currency_decimals == 2,
            p.rounding == RoundingStrategy::MidpointAwayFromZero,
            p.quantisation == Quantisation::StepSize,
    {
        PricingPolicy {
            component_decimals: 4,
            currency_decimals: 2,
            rounding: RoundingStrategy::MidpointAwayFromZero,
            quantisation: Quantisation::StepSize,
        }
    }
}

impl PricingPolicy {
    /// A policy for a currency with no minor unit, such as JPY: the default with no currency
    /// decimals.
    pub fn zero_decimal_currency() -> (p: Self)
        ensures
            p.component_decimals == 4,
            p.currency_decimals == 0,
            p.rounding == RoundingStrategy::MidpointAwayFromZero,
            p.quantisation == Quantisation::StepSize,
    {
        PricingPolicy { currency_decimals: 0, ..Self::default() }
    }

    /// This policy, billing measured quantities without `step_size` blocks.
    pub fn without_step_size(self) -> (p: Self)
        ensures
            p == (PricingPolicy { quantisation: Quantisation::Measured, ..self }),
    {
        PricingPolicy { quantisation: Quantisation::Measured, ..self }
    }

    /// Rounds an intermediate per-dimension cost to `component_decimals` places.
    pub fn round_component(&self, value: Number) -> (r: Number)
        ensures
            r == decimal_rounded(value, self.component_decimals, self.rounding),
    {
        value.round_dp_with_strategy(self.component_decimals, self.rounding)
    }

    /// Rounds a final, presentable amount to `currency_decimals` places.
    pub fn round_currency(&self, value: Number) -> (r: Number)
        ensures
            r == decimal_rounded(value, self.currency_decimals, self.rounding),
    {
        value.round_dp_with_strategy(self.currency_decimals, self.rounding)
    }
}

/// The quantity billed for `quantity` under `q`: measured, or rounded up to whole blocks of
/// `step_size` units, where `unit_scale` units make one unit of the quantity. `None` where the
/// decimal arithmetic overflows.
pub open spec fn quantised(q: Quantisation, quantity: Number, step_size: u32, unit_scale: u32) -> Option<Number> {
    if q == Quantisation::Measured || step_size == 0 {
        Some(quantity)
    } else {
        let scale = Number::from_integer(unit_scale as int);
        let step = Number::from_integer(step_size as int);
        match decimal_checked_product(quantity, scale) {
            None => None,
            Some(in_units) => match decimal_checked_quotient(in_units, step) {
                None => None,
                Some(steps) => match decimal_checked_product(steps.spec_ceil(), step) {
                    None => None,
                    Some(billed_units) => decimal_checked_quotient(billed_units, scale),
                },
            },
        }
    }
}

impl Quantisation {
    /// Rounds `quantity` up to the next multiple of `step_size` units, where `unit_scale` units
    /// make one unit of the quantity: 1000 for energy (kWh measured, Wh counted), 3600 for time
    /// (hours measured, seconds counted). A `step_size` of 0 carries no unit and leaves the
    /// quantity as measured, as does [`Quantisation::Measured`].
    pub fn apply(self, quantity: Number, step_size: u32, unit_scale: u32) -> (r: Number)
        requires
            quantised(self, quantity, step_size, unit_scale) is Some,
        ensures
            Some(r) == quantised(self, quantity, step_size, unit_scale),
    {
        match self.checked_apply(quantity, step_size, unit_scale) {
            Some(r) => r,
            None => quantity,
        }
    }

    /// [`Quantisation::apply`], or `None` where its decimal arithmetic would overflow.
    pub fn checked_apply(self, quantity: Number, step_size: u32, unit_scale: u32) -> (r: Option<Number>)
        ensures
            r == quantised(self, quantity, step_size, unit_scale),
    {
        if self == Quantisation::Measured || step_size == 0 {
            return Some(quantity);
        }
        let scale = Number::from(unit_scale);
        let step = Number::from(step_size);
        let in_units = match quantity.checked_mul(scale) {
            Some(v) => v,
            None => return None,
        };
        let steps = match in_units.checked_div(step) {
            Some(v) => v,
            None => return None,
        };
        let blocks = steps.ceil();
        match blocks.checked_mul(step) {
            Some(billed_units) => billed_units.checked_div(scale),
            None => None,
        }
    }
}


/// The denominator of `n`'s value: ten to the power of its scale.
pub open spec fn denominator(n: Number) -> int {
    pow10(n.spec_scale() as nat) as int
}

/// Whether `r` is exactly `a * b`, comparing the values the mantissas and scales stand for.
pub open spec fn is_exact_product(r: Number, a: Number, b: Number) -> bool {
    r.spec_mantissa() * denominator(a) * denominator(b) == a.spec_mantissa() * b.spec_mantissa() * denominator(r)
}

/// Whether `r` is exactly `a / b`, comparing the values the mantissas and scales stand for.
pub open spec fn is_exact_quotient(r: Number, a: Number, b: Number) -> bool {
    r.spec_mantissa() * denominator(a) * b.spec_mantissa() == a.spec_mantissa() * denominator(r) * denominator(b)
}

/// Whether every step of rounding `quantity` up to blocks of `step_size` units, `unit_scale`
/// units to the unit, is computed without rounding: the quantity in units, the number of
/// blocks, the blocks rounded up in units, and that back in the quantity's unit.
pub open spec fn quantisation_exact(quantity: Number, step_size: u32, unit_scale: u32) -> bool {
    let scale = Number::from_integer(unit_scale as int);
    let step = Number::from_integer(step_size as int);
    match decimal_checked_product(quantity, scale) {
        None => false,
        Some(in_units) => is_exact_product(in_units, quantity, scale) && match decimal_checked_quotient(in_units, step) {
            None => false,
            Some(steps) => is_exact_quotient(steps, in_units, step) && match decimal_checked_product(
                steps.spec_ceil(),
                step,
            ) {
                None => false,
                Some(billed_units) => is_exact_product(billed_units, steps.spec_ceil(), step) && match decimal_checked_quotient(
                    billed_units,
                    scale,
                ) {
                    None => false,
                    Some(billed) => is_exact_quotient(billed, billed_units, scale),
                },
            },
        },
    }
}

/// The smallest integer at or above `m / 10^s` is at or above it, and one less is below it.
proof fn lemma_ceiling_bounds(m: int, s: nat)
    ensures
        ceiling(m, s) * (pow10(s) as int) >= m,
        (ceiling(m, s) - 1) * (pow10(s) as int) < m,
{
    crate::types::datetime::lemma_pow10_positive(s);
    let p = pow10(s) as int;
    vstd::arithmetic::div_mod::lemma_fundamental_div_mod(m, p);
    let q = m / p;
    let r = m % p;
    assert(0 <= r < p);
    assert(m == p * q + r);
    if r == 0 {
        assert(ceiling(m, s) == q);
        assert(q * p == m && (q - 1) * p < m) by (nonlinear_arith)
            requires
                m == p * q + r,
                r == 0,
                p > 0,
        ;
    } else {
        assert(ceiling(m, s) == q + 1);
        assert((q + 1) * p >= m && q * p < m) by (nonlinear_arith)
            requires
                m == p * q + r,
                0 < r < p,
        ;
    }
}

/// Rounding up to `step_size` units gives the smallest multiple of the step at or above the
/// quantity, where each step of the decimal arithmetic is exact: with `r` the quantity billed,
/// `r` in units is a whole number of steps, `r` is not below the quantity, and one step less
/// would be.
pub proof fn lemma_step_size_rounds_up_to_a_multiple(quantity: Number, step_size: u32, unit_scale: u32)
    requires
        step_size > 0,
        unit_scale > 0,
        quantisation_exact(quantity, step_size, unit_scale),
    ensures
        quantised(Quantisation::StepSize, quantity, step_size, unit_scale) matches Some(r) && {
            &&& (r.spec_mantissa() * unit_scale) % (step_size * denominator(r)) == 0
            &&& r.spec_mantissa() * denominator(quantity) >= quantity.spec_mantissa() * denominator(r)
            &&& (r.spec_mantissa() * unit_scale - step_size * denominator(r)) * denominator(quantity)
                < quantity.spec_mantissa() * unit_scale * denominator(r)
        },
{
    let k = Number::from_integer(unit_scale as int);
    let s = Number::from_integer(step_size as int);
    Number::lemma_integer(unit_scale as int);
    Number::lemma_integer(step_size as int);
    let x = decimal_checked_product(quantity, k)->Some_0;
    let y = decimal_checked_quotient(x, s)->Some_0;
    let cy = y.spec_ceil();
    let z = decimal_checked_product(cy, s)->Some_0;
    let r = decimal_checked_quotient(z, k)->Some_0;
    let dq = denominator(quantity);
    let dx = denominator(x);
    let dy = denominator(y);
    let dz = denominator(z);
    let dr = denominator(r);
    crate::types::datetime::lemma_pow10_positive(quantity.spec_scale() as nat);
    crate::types::datetime::lemma_pow10_positive(x.spec_scale() as nat);
    crate::types::datetime::lemma_pow10_positive(y.spec_scale() as nat);
    crate::types::datetime::lemma_pow10_positive(z.spec_scale() as nat);
    crate::types::datetime::lemma_pow10_positive(r.spec_scale() as nat);
    assert(denominator(k) == 1 && denominator(s) == 1) by {
        assert(pow10(0) == 1);
    }
    let c = ceiling(y.spec_mantissa(), y.spec_scale() as nat);
    lemma_ceiling_bounds(y.spec_mantissa(), y.spec_scale() as nat);
    y.lemma_ceil();
    assert(denominator(cy) == 1) by {
        assert(pow10(0) == 1);
    }
    let qm = quantity.spec_mantissa();
    let xm = x.spec_mantissa();
    let ym = y.spec_mantissa();
    let zm = z.spec_mantissa();
    let rm = r.spec_mantissa();
    let sc = unit_scale as int;
    let st = step_size as int;
    // The four exact steps, as products of integers.
    assert(xm * dq * 1 == qm * sc * dx);
    assert(ym * dx * st == xm * dy * 1);
    assert(zm * 1 * 1 == c * st * dz);
    assert(rm * dz * sc == zm * dr * 1);
    assert(xm * dq == qm * sc * dx && ym * dx * st == xm * dy && zm == c * st * dz && rm * dz * sc == zm * dr)
        by (nonlinear_arith)
        requires
            xm * dq * 1 == qm * sc * dx,
            ym * dx * st == xm * dy * 1,
            zm * 1 * 1 == c * st * dz,
            rm * dz * sc == zm * dr * 1,
    ;
    // r in units is c steps.
    assert(rm * sc == c * st * dr) by (nonlinear_arith)
        requires
            rm * dz * sc == zm * dr,
            zm == c * st * dz,
            dz > 0,
    ;
    assert((rm * sc) % (st * dr) == 0) by {
        assert(rm * sc == c * (st * dr)) by (nonlinear_arith)
            requires
                rm * sc == c * st * dr,
        ;
        assert(st * dr > 0) by (nonlinear_arith)
            requires
                st > 0,
                dr > 0,
        ;
        vstd::arithmetic::div_mod::lemma_mod_multiples_basic(c, st * dr);
    }
    // Both sides of each comparison, scaled by the positive `dx * dy`.
    let v = dx * dy;
    assert(v > 0) by (nonlinear_arith)
        requires
            v == dx * dy,
            dx > 0,
            dy > 0,
    ;
    let m = st * dr * dq * dx;
    assert(m > 0) by (nonlinear_arith)
        requires
            m == st * dr * dq * dx,
            st > 0,
            dr > 0,
            dq > 0,
            dx > 0,
    ;
    // The quantity scaled: qm * sc * dr * v == ym * m.
    let upper = qm * sc * dr;
    assert(upper * v == (qm * sc * dx) * (dr * dy)) by (nonlinear_arith)
        requires
            upper == qm * sc * dr,
            v == dx * dy,
    ;
    assert((qm * sc * dx) * (dr * dy) == (xm * dq) * (dr * dy));
    assert((xm * dq) * (dr * dy) == (xm * dy) * (dq * dr)) by (nonlinear_arith);
    assert((xm * dy) * (dq * dr) == (ym * dx * st) * (dq * dr));
    assert((ym * dx * st) * (dq * dr) == ym * m) by (nonlinear_arith)
        requires
            m == st * dr * dq * dx,
    ;
    assert(upper * v == ym * m);
    // Not below the quantity: rm * dq * sc * v == c * dy * m.
    let above = rm * dq * sc;
    assert(above == (rm * sc) * dq) by (nonlinear_arith)
        requires
            above == rm * dq * sc,
    ;
    assert(above == (c * st * dr) * dq);
    assert(above * v == (c * dy) * m) by (nonlinear_arith)
        requires
            above == (c * st * dr) * dq,
            v == dx * dy,
            m == st * dr * dq * dx,
    ;
    assert(above >= upper) by (nonlinear_arith)
        requires
            above * v == (c * dy) * m,
            upper * v == ym * m,
            c * dy >= ym,
            m > 0,
            v > 0,
    ;
    assert(rm * dq >= qm * dr) by (nonlinear_arith)
        requires
            above == rm * dq * sc,
            upper == qm * sc * dr,
            above >= upper,
            sc > 0,
    ;
    // One step less is below the quantity: (rm * sc - st * dr) * dq * v == (c - 1) * dy * m.
    let lower = (rm * sc - st * dr) * dq;
    assert(lower == (c * st * dr - st * dr) * dq);
    let e = c - 1;
    assert(lower == e * st * dr * dq) by (nonlinear_arith)
        requires
            lower == (c * st * dr - st * dr) * dq,
            e == c - 1,
    ;
    assert((e * st * dr * dq) * (dx * dy) == (e * dy) * (st * dr * dq * dx)) by (nonlinear_arith);
    assert(lower * v == ((c - 1) * dy) * m);
    assert(lower < upper) by (nonlinear_arith)
        requires
            lower * v == ((c - 1) * dy) * m,
            upper * v == ym * m,
            (c - 1) * dy < ym,
            m > 0,
            v > 0,
    ;
}

} // verus!
