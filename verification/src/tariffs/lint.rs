//! Lints for a Tariff: the mistakes that are legal, decode cleanly, and still bill the wrong
//! amount — an element that can never be reached, a `step_size` that can never be applied, a
//! restriction window that is empty, a VAT percentage on a tariff that says no tax applies.

use vstd::prelude::*;

use crate::strings::{dec_digits, decimal_string, push_str};
use crate::types::local::{hh_mm, ymd_text, LocalDate};
use super::restrictions::{calendar_before, restriction_matches, RestrictionContext};
use crate::types::number::{Number, decimal_text, numeric_lt};

use super::codes::{TariffLint, TariffLintCode};
use super::model::{
    PriceComponent, Tariff, TariffDimensionType, TariffElement, TariffRestrictions, TaxIncluded,
    dimension_wire,
};

verus! {

/// A finding as the contracts see it.
pub struct Finding {
    /// What kind of finding.
    pub code: TariffLintCode,
    /// The JSON Pointer to the part of the Tariff it is about.
    pub pointer: Seq<char>,
    /// The finding in words.
    pub message: Seq<char>,
}

/// A lint as the contracts see it.
pub open spec fn finding_of(l: TariffLint) -> Finding {
    Finding { code: l.code, pointer: l.pointer@, message: l.message@ }
}

/// Lints as the contracts see them.
pub open spec fn findings_of(v: Seq<TariffLint>) -> Seq<Finding> {
    Seq::new(v.len(), |i: int| finding_of(v[i]))
}

/// One finding.
pub open spec fn one(code: TariffLintCode, pointer: Seq<char>, message: Seq<char>) -> Seq<Finding> {
    seq![Finding { code, pointer, message }]
}

/// A number as it is written in a message.
pub open spec fn number_text(n: Number) -> Seq<char> {
    decimal_text(n.spec_mantissa(), n.spec_scale())
}

/// `/elements/{e}/price_components/{c}`.
pub open spec fn component_pointer(e: int, c: int) -> Seq<char> {
    "/elements/"@ + dec_digits(e as nat) + "/price_components/"@ + dec_digits(c as nat)
}

/// `/elements/{e}/restrictions`.
pub open spec fn restrictions_pointer(e: int) -> Seq<char> {
    "/elements/"@ + dec_digits(e as nat) + "/restrictions"@
}

/// Whether a restrictions object sets nothing.
pub open spec fn is_empty_restrictions(r: TariffRestrictions) -> bool {
    &&& r.start_time is None && r.end_time is None
    &&& r.start_date is None && r.end_date is None
    &&& r.min_kwh is None && r.max_kwh is None
    &&& r.min_current is None && r.max_current is None
    &&& r.min_power is None && r.max_power is None
    &&& r.min_duration is None && r.max_duration is None
    &&& r.day_of_week@.len() == 0
    &&& r.reservation is None
}

/// Whether an element always matches: it has no restrictions, or restrictions that set nothing.
pub open spec fn is_unrestricted(el: TariffElement) -> bool {
    match el.restrictions {
        None => true,
        Some(r) => is_empty_restrictions(r),
    }
}

/// Whether an element prices `d` in one of its first `count` components.
pub open spec fn prices_within(el: TariffElement, count: int, d: TariffDimensionType) -> bool {
    exists|k: int| 0 <= k < count && #[trigger] el.price_components@[k].component_type == d
}

/// Whether an element prices `d` at all.
pub open spec fn element_prices(el: TariffElement, d: TariffDimensionType) -> bool {
    prices_within(el, el.price_components@.len() as int, d)
}

/// Whether element `e` claims `d`: it always matches and prices `d`.
pub open spec fn claims(t: Tariff, e: int, d: TariffDimensionType) -> bool {
    is_unrestricted(t.elements@[e]) && element_prices(t.elements@[e], d)
}

/// The first of the first `e` elements that claims `d`: after it, nothing prices `d`.
pub open spec fn first_claimant(t: Tariff, e: int, d: TariffDimensionType) -> Option<int>
    decreases e,
{
    if e <= 0 {
        None
    } else {
        match first_claimant(t, e - 1, d) {
            Some(f) => Some(f),
            None => if claims(t, e - 1, d) {
                Some(e - 1)
            } else {
                None
            },
        }
    }
}

/// Whether any of the first `count` elements prices `d`.
pub open spec fn prices_in_first(t: Tariff, count: int, d: TariffDimensionType) -> bool {
    exists|e: int| 0 <= e < count && #[trigger] element_prices(t.elements@[e], d)
}

/// Whether the Tariff prices `d` anywhere.
pub open spec fn tariff_prices(t: Tariff, d: TariffDimensionType) -> bool {
    prices_in_first(t, t.elements@.len() as int, d)
}

/// Whether an element names a VAT rate in one of its first `count` components.
pub open spec fn names_vat_within(el: TariffElement, count: int) -> bool {
    exists|k: int| 0 <= k < count && #[trigger] el.price_components@[k].vat is Some
}

/// Whether any of the first `count` elements names a VAT rate.
pub open spec fn vat_in_first(t: Tariff, count: int) -> bool {
    exists|e: int|
        0 <= e < count && #[trigger] names_vat_within(
            t.elements@[e],
            t.elements@[e].price_components@.len() as int,
        )
}

/// Whether a VAT percentage is above 100.
pub open spec fn above_hundred(v: Number) -> bool {
    100 * pow10_of(v) < v.spec_mantissa()
}

/// Ten to the power of a number's scale.
pub open spec fn pow10_of(v: Number) -> nat {
    crate::types::datetime::pow10(v.spec_scale())
}

/// What the `step_size` of a component is worth reporting.
#[verifier::opaque]
pub open spec fn step_size_lints(t: Tariff, at: Seq<char>, comp: PriceComponent) -> Seq<Finding> {
    let d = comp.component_type;
    let step = comp.step_size;
    if d == TariffDimensionType::Flat {
        if step > 1 {
            one(
                TariffLintCode::FlatStepSize,
                at + "/step_size"@,
                "a FLAT fee has no unit to count in blocks of "@ + dec_digits(step as nat)
                    + "; the value is ignored"@,
            )
        } else {
            Seq::empty()
        }
    } else if step == 0 {
        one(
            TariffLintCode::ZeroStepSize,
            at + "/step_size"@,
            "the specification never defines a "@ + dimension_wire(d)
                + " `step_size` of 0; this crate reads it as no quantisation at all. Write 1 for per-unit billing"@,
        )
    } else if d == TariffDimensionType::Time && tariff_prices(t, TariffDimensionType::ParkingTime)
        && step > 1 {
        one(
            TariffLintCode::UnusedTimeStepSize,
            at + "/step_size"@,
            "this tariff also prices PARKING_TIME, and `step_size` is then only taken into account for the total parking duration, so blocks of "@
                + dec_digits(step as nat) + " seconds of charging time will never be applied"@,
        )
    } else {
        Seq::empty()
    }
}

/// What the VAT of a component is worth reporting.
#[verifier::opaque]
pub open spec fn vat_lints(t: Tariff, at: Seq<char>, comp: PriceComponent) -> Seq<Finding> {
    match comp.vat {
        Some(v) => (if v.spec_mantissa() < 0 || above_hundred(v) {
            one(
                TariffLintCode::ImplausibleVat,
                at + "/vat"@,
                "a VAT percentage of "@ + number_text(v) + " is outside 0-100"@,
            )
        } else {
            Seq::empty()
        }) + (if t.tax_included == TaxIncluded::NotApplicable {
            one(
                TariffLintCode::TaxRateWithoutTax,
                at + "/vat"@,
                "the Tariff says no taxes are applicable and this component names a rate; the Tariff-level statement governs and the rate is ignored"@,
            )
        } else {
            Seq::empty()
        }),
        None => Seq::empty(),
    }
}

/// What component `c` of element `e` is worth reporting, in the order it is checked: a second
/// component for a dimension, a dimension an earlier element always claims, its `step_size`, its
/// VAT.
pub open spec fn component_lints(t: Tariff, e: int, c: int) -> Seq<Finding> {
    let el = t.elements@[e];
    let comp = el.price_components@[c];
    let at = component_pointer(e, c);
    let d = comp.component_type;
    (if prices_within(el, c, d) {
        one(
            TariffLintCode::DuplicateDimension,
            at,
            "this element already prices "@ + dimension_wire(d)
                + "; only the first Price Component for a dimension in an element is ever used"@,
        )
    } else {
        Seq::empty()
    }) + (match first_claimant(t, e, d) {
        Some(f) => one(
            TariffLintCode::UnreachableElement,
            at,
            "element "@ + dec_digits(f as nat) + " prices "@ + dimension_wire(d)
                + " and its restrictions always match, so this Price Component can never apply. The unrestricted element is the fallback and belongs last"@,
        ),
        None => Seq::empty(),
    }) + step_size_lints(t, at, comp) + vat_lints(t, at, comp)
}

/// What the first `count` components of element `e` are worth reporting.
pub open spec fn components_lints(t: Tariff, e: int, count: int) -> Seq<Finding>
    decreases count,
{
    if count <= 0 {
        Seq::empty()
    } else {
        components_lints(t, e, count - 1) + component_lints(t, e, count - 1)
    }
}

/// Energy bounds no amount can fall between.
#[verifier::opaque]
pub open spec fn kwh_lints(at: Seq<char>, r: TariffRestrictions) -> Seq<Finding> {
    match (r.min_kwh, r.max_kwh) {
        (Some(lo), Some(hi)) => if !numeric_lt(lo, hi) {
            one(
                TariffLintCode::ImpossibleRestriction,
                at + "/min_kwh"@,
                "min_kwh "@ + number_text(lo) + " is at or above max_kwh "@ + number_text(hi)
                    + ", which is exclusive"@,
            )
        } else {
            Seq::empty()
        },
        _ => Seq::empty(),
    }
}

/// Power bounds no power can fall between.
#[verifier::opaque]
pub open spec fn power_lints(at: Seq<char>, r: TariffRestrictions) -> Seq<Finding> {
    match (r.min_power, r.max_power) {
        (Some(lo), Some(hi)) => if !numeric_lt(lo, hi) {
            one(
                TariffLintCode::ImpossibleRestriction,
                at + "/min_power"@,
                "min_power "@ + number_text(lo) + " is at or above max_power "@ + number_text(hi),
            )
        } else {
            Seq::empty()
        },
        _ => Seq::empty(),
    }
}

/// Current bounds no current can fall between.
#[verifier::opaque]
pub open spec fn current_lints(at: Seq<char>, r: TariffRestrictions) -> Seq<Finding> {
    match (r.min_current, r.max_current) {
        (Some(lo), Some(hi)) => if !numeric_lt(lo, hi) {
            one(
                TariffLintCode::ImpossibleRestriction,
                at + "/min_current"@,
                "min_current "@ + number_text(lo) + " is at or above max_current "@ + number_text(hi),
            )
        } else {
            Seq::empty()
        },
        _ => Seq::empty(),
    }
}

/// Duration bounds no session length can fall between.
#[verifier::opaque]
pub open spec fn duration_lints(at: Seq<char>, r: TariffRestrictions) -> Seq<Finding> {
    match (r.min_duration, r.max_duration) {
        (Some(lo), Some(hi)) => if lo >= hi {
            one(
                TariffLintCode::ImpossibleRestriction,
                at + "/min_duration"@,
                "min_duration "@ + dec_digits(lo as nat) + "s is at or above max_duration "@
                    + dec_digits(hi as nat) + "s, which is exclusive"@,
            )
        } else {
            Seq::empty()
        },
        _ => Seq::empty(),
    }
}

/// Dates no day can fall between.
#[verifier::opaque]
pub open spec fn date_lints(at: Seq<char>, r: TariffRestrictions) -> Seq<Finding> {
    match (r.start_date, r.end_date) {
        (Some(s), Some(d)) => if !s.spec_before(d) {
            one(
                TariffLintCode::ImpossibleRestriction,
                at + "/start_date"@,
                "valid from "@ + ymd_text(s.spec_year() as int, s.spec_month() as nat, s.spec_day() as nat)
                    + " until "@ + ymd_text(d.spec_year() as int, d.spec_month() as nat, d.spec_day() as nat)
                    + ", which is not a day"@,
            )
        } else {
            Seq::empty()
        },
        _ => Seq::empty(),
    }
}

/// A time window whose ends coincide.
#[verifier::opaque]
pub open spec fn time_lints(at: Seq<char>, r: TariffRestrictions) -> Seq<Finding> {
    match (r.start_time, r.end_time) {
        (Some(s), Some(d)) => if s == d {
            one(
                TariffLintCode::WholeDayWindow,
                at + "/start_time"@,
                "start_time and end_time are both "@ + hh_mm(s.spec_hour() as nat, s.spec_minute() as nat)
                    + "; the specification does not say what that means and this crate reads it as the whole day. Leave both out to say so"@,
            )
        } else {
            Seq::empty()
        },
        _ => Seq::empty(),
    }
}

/// What a reservation element's components for dimensions a reservation cannot have are worth
/// reporting, for its first `count` components.
pub open spec fn reservation_lints(el: TariffElement, e: int, count: int) -> Seq<Finding>
    decreases count,
{
    if count <= 0 {
        Seq::empty()
    } else {
        let d = el.price_components@[count - 1].component_type;
        reservation_lints(el, e, count - 1) + if d != TariffDimensionType::Flat && d
            != TariffDimensionType::Time {
            one(
                TariffLintCode::ReservationDimension,
                component_pointer(e, count - 1),
                "this element describes reservation costs, and a reservation can only have FLAT and TIME dimensions; "@
                    + dimension_wire(d) + " will never be priced by it"@,
            )
        } else {
            Seq::empty()
        }
    }
}

/// What the restrictions of element `e` are worth reporting: that they set nothing, or each
/// window no value can fall in, a time window whose ends coincide, and the components of a
/// reservation element that a reservation cannot have.
pub open spec fn restriction_lints(r: TariffRestrictions, e: int, el: TariffElement) -> Seq<Finding> {
    let at = restrictions_pointer(e);
    if is_empty_restrictions(r) {
        one(
            TariffLintCode::EmptyRestrictions,
            at,
            "a TariffRestrictions with nothing set restricts nothing; this element is a fallback that does not read like one"@,
        )
    } else {
        kwh_lints(at, r) + power_lints(at, r) + current_lints(at, r) + duration_lints(at, r)
            + date_lints(at, r) + time_lints(at, r) + (if r.reservation is Some {
            reservation_lints(el, e, el.price_components@.len() as int)
        } else {
            Seq::empty()
        })
    }
}

/// What element `e` is worth reporting: its components, then its restrictions.
pub open spec fn element_lints(t: Tariff, e: int) -> Seq<Finding> {
    let el = t.elements@[e];
    components_lints(t, e, el.price_components@.len() as int) + match el.restrictions {
        Some(r) => restriction_lints(r, e, el),
        None => Seq::empty(),
    }
}

/// What the first `count` elements are worth reporting.
pub open spec fn elements_lints(t: Tariff, count: int) -> Seq<Finding>
    decreases count,
{
    if count <= 0 {
        Seq::empty()
    } else {
        elements_lints(t, count - 1) + element_lints(t, count - 1)
    }
}

/// That nothing is priced by use.
#[verifier::opaque]
pub open spec fn use_lints(t: Tariff) -> Seq<Finding> {
    if !tariff_prices(t, TariffDimensionType::Energy) && !tariff_prices(t, TariffDimensionType::Time) {
        one(
            TariffLintCode::NothingPricedByUse,
            "/elements"@,
            "no Price Component prices ENERGY or TIME, so a session of any length and any amount of energy costs the same"@,
        )
    } else {
        Seq::empty()
    }
}

/// That included tax has no rate.
#[verifier::opaque]
pub open spec fn included_tax_lints(t: Tariff) -> Seq<Finding> {
    if t.tax_included == TaxIncluded::Yes && !vat_in_first(t, t.elements@.len() as int) {
        one(
            TariffLintCode::TaxIncludedWithoutRate,
            "/tax_included"@,
            "the prices include tax and no Price Component says at what rate, so nobody reading this Tariff can compute a pre-tax total from it"@,
        )
    } else {
        Seq::empty()
    }
}

/// That the price limits cross, before taxes and after.
#[verifier::opaque]
pub open spec fn price_limit_lints(t: Tariff) -> Seq<Finding> {
    match (t.min_price, t.max_price) {
        (Some(lo), Some(hi)) => (if numeric_lt(hi.before_taxes, lo.before_taxes) {
            one(
                TariffLintCode::PriceLimitsCross,
                "/min_price/before_taxes"@,
                "the minimum before taxes ("@ + number_text(lo.before_taxes) + ") is above the maximum ("@
                    + number_text(hi.before_taxes)
                    + "), so no session can satisfy both and the maximum is applied last"@,
            )
        } else {
            Seq::empty()
        }) + (match (lo.after_taxes, hi.after_taxes) {
            (Some(a), Some(b)) => if numeric_lt(b, a) {
                one(
                    TariffLintCode::PriceLimitsCross,
                    "/min_price/after_taxes"@,
                    "the minimum after taxes ("@ + number_text(a) + ") is above the maximum ("@
                        + number_text(b) + ")"@,
                )
            } else {
                Seq::empty()
            },
            _ => Seq::empty(),
        }),
        _ => Seq::empty(),
    }
}

/// That the validity window is empty.
#[verifier::opaque]
pub open spec fn validity_lints(t: Tariff) -> Seq<Finding> {
    match (t.start_date_time, t.end_date_time) {
        (Some(s), Some(d)) => if d.instant() <= s.instant() {
            one(
                TariffLintCode::NeverActive,
                "/end_date_time"@,
                "this Tariff ends at "@ + d.text() + ", at or before it starts at "@ + s.text(),
            )
        } else {
            Seq::empty()
        },
        _ => Seq::empty(),
    }
}

/// What the Tariff as a whole is worth reporting: that nothing is priced by use, that included
/// tax has no rate, that the price limits cross, that it is never active.
pub open spec fn tariff_level_lints(t: Tariff) -> Seq<Finding> {
    use_lints(t) + included_tax_lints(t) + price_limit_lints(t) + validity_lints(t)
}

/// Every lint that applies to a Tariff, in document order: each element's, then the Tariff's.
pub open spec fn tariff_lints(t: Tariff) -> Seq<Finding> {
    elements_lints(t, t.elements@.len() as int) + tariff_level_lints(t)
}

/// Appends one lint.
fn push_lint(out: &mut Vec<TariffLint>, code: TariffLintCode, pointer: String, message: String)
    ensures
        findings_of(final(out)@) == findings_of(old(out)@) + one(code, pointer@, message@),
{
    let ghost p = pointer@;
    let ghost m = message@;
    out.push(TariffLint { code, pointer, message });
    assert(findings_of(out@) =~= findings_of(old(out)@) + one(code, p, m));
}

/// `a` then `b`.
fn concat2(a: &str, b: &str) -> (s: String)
    ensures
        s@ == a@ + b@,
{
    let mut s = String::new();
    push_str(&mut s, a);
    push_str(&mut s, b);
    assert(s@ =~= a@ + b@);
    s
}

/// `a`, `b`, `c`.
fn concat3(a: &str, b: &str, c: &str) -> (s: String)
    ensures
        s@ == a@ + b@ + c@,
{
    let mut s = concat2(a, b);
    push_str(&mut s, c);
    s
}

/// `a`, `b`, `c`, `d`.
fn concat4(a: &str, b: &str, c: &str, d: &str) -> (s: String)
    ensures
        s@ == a@ + b@ + c@ + d@,
{
    let mut s = concat3(a, b, c);
    push_str(&mut s, d);
    s
}

/// `a`, `b`, `c`, `d`, `e`.
fn concat5(a: &str, b: &str, c: &str, d: &str, e: &str) -> (s: String)
    ensures
        s@ == a@ + b@ + c@ + d@ + e@,
{
    let mut s = concat4(a, b, c, d);
    push_str(&mut s, e);
    s
}

/// `/elements/{e}/price_components/{c}`.
fn component_pointer_text(e: usize, c: usize) -> (s: String)
    ensures
        s@ == component_pointer(e as int, c as int),
{
    let es = decimal_string(e as u64);
    let cs = decimal_string(c as u64);
    concat4("/elements/", es.as_str(), "/price_components/", cs.as_str())
}

/// Whether a restrictions object sets nothing.
fn is_empty_restriction(r: &TariffRestrictions) -> (b: bool)
    ensures
        b == is_empty_restrictions(*r),
{
    r.start_time.is_none() && r.end_time.is_none() && r.start_date.is_none() && r.end_date.is_none()
        && r.min_kwh.is_none() && r.max_kwh.is_none() && r.min_current.is_none()
        && r.max_current.is_none() && r.min_power.is_none() && r.max_power.is_none()
        && r.min_duration.is_none() && r.max_duration.is_none() && r.day_of_week.len() == 0
        && r.reservation.is_none()
}

/// Whether an element always matches.
fn element_unrestricted(el: &TariffElement) -> (b: bool)
    ensures
        b == is_unrestricted(*el),
{
    match &el.restrictions {
        None => true,
        Some(r) => is_empty_restriction(r),
    }
}

/// Whether an element prices `d` in one of its first `count` components.
fn prices_within_first(el: &TariffElement, count: usize, d: TariffDimensionType) -> (b: bool)
    requires
        count <= el.price_components@.len(),
    ensures
        b == prices_within(*el, count as int, d),
{
    let mut k: usize = 0;
    while k < count
        invariant
            k <= count,
            count <= el.price_components@.len(),
            !prices_within(*el, k as int, d),
        decreases count - k,
    {
        if el.price_components[k].component_type == d {
            return true;
        }
        k = k + 1;
    }
    false
}

/// A first claimant is one of the elements before `e`, and claims the dimension.
proof fn lemma_first_claimant_bounds(t: Tariff, e: int, d: TariffDimensionType)
    ensures
        first_claimant(t, e, d) matches Some(f) ==> 0 <= f < e && claims(t, f, d),
    decreases e,
{
    if e > 0 {
        lemma_first_claimant_bounds(t, e - 1, d);
    }
}

/// A first claimant stays the first claimant.
proof fn lemma_first_claimant_stays(t: Tariff, a: int, b: int, d: TariffDimensionType)
    requires
        a <= b,
        first_claimant(t, a, d) is Some,
    ensures
        first_claimant(t, b, d) == first_claimant(t, a, d),
    decreases b - a,
{
    if b > a {
        lemma_first_claimant_stays(t, a, b - 1, d);
    }
}

/// The first of the first `e` elements that always matches and prices `d`.
fn first_claimant_of(t: &Tariff, e: usize, d: TariffDimensionType) -> (r: Option<usize>)
    requires
        e <= t.elements@.len(),
    ensures
        match first_claimant(*t, e as int, d) {
            Some(f) => r == Some(f as usize),
            None => r is None,
        },
{
    let mut k: usize = 0;
    while k < e
        invariant
            k <= e,
            e <= t.elements@.len(),
            first_claimant(*t, k as int, d) is None,
        decreases e - k,
    {
        let el = &t.elements[k];
        if element_unrestricted(el) && prices_within_first(el, el.price_components.len(), d) {
            proof {
                assert(first_claimant(*t, k + 1, d) == Some(k as int));
                lemma_first_claimant_stays(*t, k + 1, e as int, d);
            }
            return Some(k);
        }
        k = k + 1;
    }
    None
}

/// Whether the Tariff prices `d` anywhere.
fn prices_dimension(t: &Tariff, d: TariffDimensionType) -> (b: bool)
    ensures
        b == tariff_prices(*t, d),
{
    let n = t.elements.len();
    let mut e: usize = 0;
    while e < n
        invariant
            e <= n,
            n == t.elements@.len(),
            !prices_in_first(*t, e as int, d),
        decreases n - e,
    {
        let el = &t.elements[e];
        if prices_within_first(el, el.price_components.len(), d) {
            assert(element_prices(t.elements@[e as int], d));
            return true;
        }
        e = e + 1;
    }
    false
}

/// Whether any Price Component names a VAT rate.
fn names_vat(t: &Tariff) -> (b: bool)
    ensures
        b == vat_in_first(*t, t.elements@.len() as int),
{
    let n = t.elements.len();
    let mut e: usize = 0;
    while e < n
        invariant
            e <= n,
            n == t.elements@.len(),
            !vat_in_first(*t, e as int),
        decreases n - e,
    {
        let el = &t.elements[e];
        let m = el.price_components.len();
        let mut k: usize = 0;
        while k < m
            invariant
                k <= m,
                m == el.price_components@.len(),
                el == t.elements@[e as int],
                e < n,
                n == t.elements@.len(),
                !names_vat_within(*el, k as int),
            decreases m - k,
        {
            if el.price_components[k].vat.is_some() {
                assert(names_vat_within(*el, m as int));
                return true;
            }
            k = k + 1;
        }
        e = e + 1;
    }
    false
}

/// Reports what the `step_size` of a component is worth reporting.
fn lint_step_size(
    at: &str,
    comp: &PriceComponent,
    prices_parking: bool,
    out: &mut Vec<TariffLint>,
    Ghost(t): Ghost<Tariff>,
)
    requires
        prices_parking == tariff_prices(t, TariffDimensionType::ParkingTime),
    ensures
        findings_of(final(out)@) == findings_of(old(out)@) + step_size_lints(t, at@, *comp),
{
    let d = comp.component_type;
    let step = comp.step_size;
    reveal(step_size_lints);
    let ghost base = findings_of(out@);
    if d == TariffDimensionType::Flat {
        if step > 1 {
            let n = decimal_string(step as u64);
            push_lint(
                out,
                TariffLintCode::FlatStepSize,
                concat2(at, "/step_size"),
                concat3("a FLAT fee has no unit to count in blocks of ", n.as_str(), "; the value is ignored"),
            );
        } else {
            assert(findings_of(out@) =~= base + step_size_lints(t, at@, *comp));
        }
    } else if step == 0 {
        push_lint(
            out,
            TariffLintCode::ZeroStepSize,
            concat2(at, "/step_size"),
            concat3(
                "the specification never defines a ",
                d.as_str(),
                " `step_size` of 0; this crate reads it as no quantisation at all. Write 1 for per-unit billing",
            ),
        );
    } else if d == TariffDimensionType::Time && prices_parking && step > 1 {
        let n = decimal_string(step as u64);
        push_lint(
            out,
            TariffLintCode::UnusedTimeStepSize,
            concat2(at, "/step_size"),
            concat3(
                "this tariff also prices PARKING_TIME, and `step_size` is then only taken into account for the total parking duration, so blocks of ",
                n.as_str(),
                " seconds of charging time will never be applied",
            ),
        );
    } else {
        assert(findings_of(out@) =~= base + step_size_lints(t, at@, *comp));
    }
}

/// Reports what the VAT of a component is worth reporting.
fn lint_vat(at: &str, comp: &PriceComponent, tax_included: TaxIncluded, out: &mut Vec<TariffLint>, Ghost(t): Ghost<Tariff>)
    requires
        tax_included == t.tax_included,
    ensures
        findings_of(final(out)@) == findings_of(old(out)@) + vat_lints(t, at@, *comp),
{
    reveal(vat_lints);
    let ghost base = findings_of(out@);
    match &comp.vat {
        Some(v) => {
            let hundred = Number::from(100u32);
            proof {
                assert(hundred.spec_mantissa() == 100 && hundred.spec_scale() == 0);
                assert(crate::types::datetime::pow10(0) == 1);
                assert(crate::types::number::numeric_lt(hundred, *v) == above_hundred(*v));
            }
            if v.is_negative() || hundred.is_less_than(v) {
                let text = v.to_string();
                push_lint(
                    out,
                    TariffLintCode::ImplausibleVat,
                    concat2(at, "/vat"),
                    concat3("a VAT percentage of ", text.as_str(), " is outside 0-100"),
                );
            }
            let ghost implausible = if v.spec_mantissa() < 0 || above_hundred(*v) {
                one(TariffLintCode::ImplausibleVat, at@ + "/vat"@, "a VAT percentage of "@ + number_text(*v) + " is outside 0-100"@)
            } else {
                Seq::empty()
            };
            assert(findings_of(out@) =~= base + implausible);
            if tax_included == TaxIncluded::NotApplicable {
                push_lint(
                    out,
                    TariffLintCode::TaxRateWithoutTax,
                    concat2(at, "/vat"),
                    String::from_str("the Tariff says no taxes are applicable and this component names a rate; the Tariff-level statement governs and the rate is ignored"),
                );
            }
            assert(findings_of(out@) =~= base + vat_lints(t, at@, *comp));
        },
        None => {
            assert(findings_of(out@) =~= base + vat_lints(t, at@, *comp));
        },
    }
}


/// Reports what component `c` of element `e` is worth reporting.
fn lint_component(t: &Tariff, e: usize, c: usize, prices_parking: bool, out: &mut Vec<TariffLint>)
    requires
        e < t.elements@.len(),
        c < t.elements@[e as int].price_components@.len(),
        prices_parking == tariff_prices(*t, TariffDimensionType::ParkingTime),
    ensures
        findings_of(final(out)@) == findings_of(old(out)@) + component_lints(*t, e as int, c as int),
{
    let ghost base = findings_of(out@);
    let el = &t.elements[e];
    let comp = &el.price_components[c];
    let d = comp.component_type;
    let at = component_pointer_text(e, c);
    if prices_within_first(el, c, d) {
        push_lint(
            out,
            TariffLintCode::DuplicateDimension,
            at.clone(),
            concat3(
                "this element already prices ",
                d.as_str(),
                "; only the first Price Component for a dimension in an element is ever used",
            ),
        );
    }
    let ghost after_duplicate = findings_of(out@);
    match first_claimant_of(t, e, d) {
        Some(f) => {
            let fs = decimal_string(f as u64);
            push_lint(
                out,
                TariffLintCode::UnreachableElement,
                at.clone(),
                concat5(
                    "element ",
                    fs.as_str(),
                    " prices ",
                    d.as_str(),
                    " and its restrictions always match, so this Price Component can never apply. The unrestricted element is the fallback and belongs last",
                ),
            );
        },
        None => {},
    }
    proof {
        lemma_first_claimant_bounds(*t, e as int, d);
        assert(after_duplicate =~= base + (if prices_within(t.elements@[e as int], c as int, d) {
            one(
                TariffLintCode::DuplicateDimension,
                component_pointer(e as int, c as int),
                "this element already prices "@ + dimension_wire(d)
                    + "; only the first Price Component for a dimension in an element is ever used"@,
            )
        } else {
            Seq::empty()
        }));
    }
    lint_step_size(at.as_str(), comp, prices_parking, out, Ghost(*t));
    lint_vat(at.as_str(), comp, t.tax_included, out, Ghost(*t));
    assert(findings_of(out@) =~= base + component_lints(*t, e as int, c as int));
}

/// Reports what the components of a reservation element that a reservation cannot have.
fn lint_reservation_components(el: &TariffElement, e: usize, out: &mut Vec<TariffLint>)
    ensures
        findings_of(final(out)@) == findings_of(old(out)@) + reservation_lints(
            *el,
            e as int,
            el.price_components@.len() as int,
        ),
{
    let ghost base = findings_of(out@);
    let m = el.price_components.len();
    let mut c: usize = 0;
    while c < m
        invariant
            c <= m,
            m == el.price_components@.len(),
            findings_of(out@) == base + reservation_lints(*el, e as int, c as int),
        decreases m - c,
    {
        let d = el.price_components[c].component_type;
        if d != TariffDimensionType::Flat && d != TariffDimensionType::Time {
            push_lint(
                out,
                TariffLintCode::ReservationDimension,
                component_pointer_text(e, c),
                concat3(
                    "this element describes reservation costs, and a reservation can only have FLAT and TIME dimensions; ",
                    d.as_str(),
                    " will never be priced by it",
                ),
            );
        }
        assert(findings_of(out@) =~= base + reservation_lints(*el, e as int, c + 1));
        c = c + 1;
    }
}

/// Reports crossing energy bounds.
fn lint_kwh(at: &str, r: &TariffRestrictions, out: &mut Vec<TariffLint>)
    ensures
        findings_of(final(out)@) == findings_of(old(out)@) + kwh_lints(at@, *r),
{
    reveal(kwh_lints);
    let ghost base = findings_of(out@);
    match (&r.min_kwh, &r.max_kwh) {
        (Some(lo), Some(hi)) => if !lo.is_less_than(hi) {
            let (a, b) = (lo.to_string(), hi.to_string());
            push_lint(
                out,
                TariffLintCode::ImpossibleRestriction,
                concat2(at, "/min_kwh"),
                concat5("min_kwh ", a.as_str(), " is at or above max_kwh ", b.as_str(), ", which is exclusive"),
            );
            return;
        },
        _ => {},
    }
    assert(findings_of(out@) =~= base + kwh_lints(at@, *r));
}

/// Reports crossing power bounds.
fn lint_power(at: &str, r: &TariffRestrictions, out: &mut Vec<TariffLint>)
    ensures
        findings_of(final(out)@) == findings_of(old(out)@) + power_lints(at@, *r),
{
    reveal(power_lints);
    let ghost base = findings_of(out@);
    match (&r.min_power, &r.max_power) {
        (Some(lo), Some(hi)) => if !lo.is_less_than(hi) {
            let (a, b) = (lo.to_string(), hi.to_string());
            push_lint(
                out,
                TariffLintCode::ImpossibleRestriction,
                concat2(at, "/min_power"),
                concat4("min_power ", a.as_str(), " is at or above max_power ", b.as_str()),
            );
            return;
        },
        _ => {},
    }
    assert(findings_of(out@) =~= base + power_lints(at@, *r));
}

/// Reports crossing current bounds.
fn lint_current(at: &str, r: &TariffRestrictions, out: &mut Vec<TariffLint>)
    ensures
        findings_of(final(out)@) == findings_of(old(out)@) + current_lints(at@, *r),
{
    reveal(current_lints);
    let ghost base = findings_of(out@);
    match (&r.min_current, &r.max_current) {
        (Some(lo), Some(hi)) => if !lo.is_less_than(hi) {
            let (a, b) = (lo.to_string(), hi.to_string());
            push_lint(
                out,
                TariffLintCode::ImpossibleRestriction,
                concat2(at, "/min_current"),
                concat4("min_current ", a.as_str(), " is at or above max_current ", b.as_str()),
            );
            return;
        },
        _ => {},
    }
    assert(findings_of(out@) =~= base + current_lints(at@, *r));
}

/// Reports crossing duration bounds.
fn lint_duration(at: &str, r: &TariffRestrictions, out: &mut Vec<TariffLint>)
    ensures
        findings_of(final(out)@) == findings_of(old(out)@) + duration_lints(at@, *r),
{
    reveal(duration_lints);
    let ghost base = findings_of(out@);
    match (r.min_duration, r.max_duration) {
        (Some(lo), Some(hi)) => if lo >= hi {
            let (a, b) = (decimal_string(lo), decimal_string(hi));
            push_lint(
                out,
                TariffLintCode::ImpossibleRestriction,
                concat2(at, "/min_duration"),
                concat5(
                    "min_duration ",
                    a.as_str(),
                    "s is at or above max_duration ",
                    b.as_str(),
                    "s, which is exclusive",
                ),
            );
            return;
        },
        _ => {},
    }
    assert(findings_of(out@) =~= base + duration_lints(at@, *r));
}

/// Reports dates no day falls between.
fn lint_dates(at: &str, r: &TariffRestrictions, out: &mut Vec<TariffLint>)
    ensures
        findings_of(final(out)@) == findings_of(old(out)@) + date_lints(at@, *r),
{
    reveal(date_lints);
    let ghost base = findings_of(out@);
    match (r.start_date, r.end_date) {
        (Some(sd), Some(ed)) => if !sd.is_before(ed) {
            let (a, b) = (sd.to_string(), ed.to_string());
            push_lint(
                out,
                TariffLintCode::ImpossibleRestriction,
                concat2(at, "/start_date"),
                concat5("valid from ", a.as_str(), " until ", b.as_str(), ", which is not a day"),
            );
            return;
        },
        _ => {},
    }
    assert(findings_of(out@) =~= base + date_lints(at@, *r));
}

/// Reports a time window whose ends coincide.
fn lint_times(at: &str, r: &TariffRestrictions, out: &mut Vec<TariffLint>)
    ensures
        findings_of(final(out)@) == findings_of(old(out)@) + time_lints(at@, *r),
{
    reveal(time_lints);
    let ghost base = findings_of(out@);
    match (r.start_time, r.end_time) {
        (Some(st), Some(et)) => if st == et {
            let a = st.to_string();
            push_lint(
                out,
                TariffLintCode::WholeDayWindow,
                concat2(at, "/start_time"),
                concat3(
                    "start_time and end_time are both ",
                    a.as_str(),
                    "; the specification does not say what that means and this crate reads it as the whole day. Leave both out to say so",
                ),
            );
            return;
        },
        _ => {},
    }
    assert(findings_of(out@) =~= base + time_lints(at@, *r));
}

/// Reports what the restrictions `r` of element `e` are worth reporting.
fn lint_restrictions(r: &TariffRestrictions, e: usize, el: &TariffElement, out: &mut Vec<TariffLint>)
    ensures
        findings_of(final(out)@) == findings_of(old(out)@) + restriction_lints(*r, e as int, *el),
{
    let ghost base = findings_of(out@);
    let es = decimal_string(e as u64);
    let at = concat3("/elements/", es.as_str(), "/restrictions");
    if is_empty_restriction(r) {
        push_lint(
            out,
            TariffLintCode::EmptyRestrictions,
            at,
            String::from_str(
                "a TariffRestrictions with nothing set restricts nothing; this element is a fallback that does not read like one",
            ),
        );
        return;
    }
    let at = at.as_str();
    lint_kwh(at, r, out);
    lint_power(at, r, out);
    lint_current(at, r, out);
    lint_duration(at, r, out);
    lint_dates(at, r, out);
    lint_times(at, r, out);
    if r.reservation.is_some() {
        lint_reservation_components(el, e, out);
    }
    assert(findings_of(out@) =~= base + restriction_lints(*r, e as int, *el));
}

/// Reports what the Tariff as a whole is worth reporting.
fn lint_tariff_level(tariff: &Tariff, out: &mut Vec<TariffLint>)
    ensures
        findings_of(final(out)@) == findings_of(old(out)@) + tariff_level_lints(*tariff),
{
    let ghost base = findings_of(out@);
    lint_use(tariff, out);
    lint_included_tax(tariff, out);
    lint_price_limits(tariff, out);
    lint_validity(tariff, out);
    assert(findings_of(out@) =~= base + tariff_level_lints(*tariff));
}

/// Reports that nothing is priced by use.
fn lint_use(tariff: &Tariff, out: &mut Vec<TariffLint>)
    ensures
        findings_of(final(out)@) == findings_of(old(out)@) + use_lints(*tariff),
{
    reveal(use_lints);
    let ghost base = findings_of(out@);
    if !prices_dimension(tariff, TariffDimensionType::Energy) && !prices_dimension(
        tariff,
        TariffDimensionType::Time,
    ) {
        push_lint(
            out,
            TariffLintCode::NothingPricedByUse,
            String::from_str("/elements"),
            String::from_str(
                "no Price Component prices ENERGY or TIME, so a session of any length and any amount of energy costs the same",
            ),
        );
        return;
    }
    assert(findings_of(out@) =~= base + use_lints(*tariff));
}

/// Reports that included tax has no rate.
fn lint_included_tax(tariff: &Tariff, out: &mut Vec<TariffLint>)
    ensures
        findings_of(final(out)@) == findings_of(old(out)@) + included_tax_lints(*tariff),
{
    reveal(included_tax_lints);
    let ghost base = findings_of(out@);
    if tariff.tax_included == TaxIncluded::Yes && !names_vat(tariff) {
        push_lint(
            out,
            TariffLintCode::TaxIncludedWithoutRate,
            String::from_str("/tax_included"),
            String::from_str(
                "the prices include tax and no Price Component says at what rate, so nobody reading this Tariff can compute a pre-tax total from it",
            ),
        );
        return;
    }
    assert(findings_of(out@) =~= base + included_tax_lints(*tariff));
}

/// Reports crossing price limits.
fn lint_price_limits(tariff: &Tariff, out: &mut Vec<TariffLint>)
    ensures
        findings_of(final(out)@) == findings_of(old(out)@) + price_limit_lints(*tariff),
{
    reveal(price_limit_lints);
    let ghost base = findings_of(out@);
    match (&tariff.min_price, &tariff.max_price) {
        (Some(lo), Some(hi)) => {
            if hi.before_taxes.is_less_than(&lo.before_taxes) {
                let (a, b) = (lo.before_taxes.to_string(), hi.before_taxes.to_string());
                push_lint(
                    out,
                    TariffLintCode::PriceLimitsCross,
                    String::from_str("/min_price/before_taxes"),
                    concat5(
                        "the minimum before taxes (",
                        a.as_str(),
                        ") is above the maximum (",
                        b.as_str(),
                        "), so no session can satisfy both and the maximum is applied last",
                    ),
                );
            }
            match (&lo.after_taxes, &hi.after_taxes) {
                (Some(la), Some(ha)) => if ha.is_less_than(la) {
                    let (a, b) = (la.to_string(), ha.to_string());
                    push_lint(
                        out,
                        TariffLintCode::PriceLimitsCross,
                        String::from_str("/min_price/after_taxes"),
                        concat5("the minimum after taxes (", a.as_str(), ") is above the maximum (", b.as_str(), ")"),
                    );
                },
                _ => {},
            }
        },
        _ => {},
    }
    assert(findings_of(out@) =~= base + price_limit_lints(*tariff));
}

/// Reports an empty validity window.
fn lint_validity(tariff: &Tariff, out: &mut Vec<TariffLint>)
    ensures
        findings_of(final(out)@) == findings_of(old(out)@) + validity_lints(*tariff),
{
    reveal(validity_lints);
    let ghost base = findings_of(out@);
    match (&tariff.start_date_time, &tariff.end_date_time) {
        (Some(start), Some(end)) => if !start.is_before(end) {
            let (a, b) = (end.to_string(), start.to_string());
            push_lint(
                out,
                TariffLintCode::NeverActive,
                String::from_str("/end_date_time"),
                concat4("this Tariff ends at ", a.as_str(), ", at or before it starts at ", b.as_str()),
            );
            return;
        },
        _ => {},
    }
    assert(findings_of(out@) =~= base + validity_lints(*tariff));
}

/// Every lint that applies to `tariff`, in document order: for each element, each of its Price
/// Components (a second component for a dimension, a dimension an earlier unrestricted element
/// always claims, a `step_size` that is zero, pointless or absorbed by parking, an implausible or
/// contradicted VAT rate), then its restrictions (empty, impossible, a whole-day window,
/// dimensions a reservation cannot have); then the Tariff's own (nothing priced by use, included
/// tax without a rate, crossing price limits, an empty validity window).
pub fn lint(tariff: &Tariff) -> (out: Vec<TariffLint>)
    ensures
        findings_of(out@) == tariff_lints(*tariff),
{
    let mut out: Vec<TariffLint> = Vec::new();
    let prices_parking = prices_dimension(tariff, TariffDimensionType::ParkingTime);
    let n = tariff.elements.len();
    let mut e: usize = 0;
    assert(findings_of(out@) =~= elements_lints(*tariff, 0));
    while e < n
        invariant
            e <= n,
            n == tariff.elements@.len(),
            prices_parking == tariff_prices(*tariff, TariffDimensionType::ParkingTime),
            findings_of(out@) == elements_lints(*tariff, e as int),
        decreases n - e,
    {
        let el = &tariff.elements[e];
        let m = el.price_components.len();
        let ghost before = findings_of(out@);
        let mut c: usize = 0;
        while c < m
            invariant
                c <= m,
                e < n,
                n == tariff.elements@.len(),
                el == tariff.elements@[e as int],
                m == el.price_components@.len(),
                prices_parking == tariff_prices(*tariff, TariffDimensionType::ParkingTime),
                findings_of(out@) == before + components_lints(*tariff, e as int, c as int),
            decreases m - c,
        {
            lint_component(tariff, e, c, prices_parking, &mut out);
            assert(findings_of(out@) =~= before + components_lints(*tariff, e as int, c + 1));
            c = c + 1;
        }
        match &el.restrictions {
            Some(r) => lint_restrictions(r, e, el, &mut out),
            None => {},
        }
        assert(findings_of(out@) =~= elements_lints(*tariff, e + 1));
        e = e + 1;
    }
    lint_tariff_level(tariff, &mut out);
    assert(findings_of(out@) =~= tariff_lints(*tariff));
    out
}



/// The dates of a restriction are flagged, at its `start_date`, exactly when no day lies in
/// their window: a day is in it when it is not before `start_date` and is before `end_date`,
/// which is exclusive. A window with days in it is never flagged.
pub proof fn lemma_dates_flagged_exactly_when_no_day_fits(at: Seq<char>, r: TariffRestrictions)
    ensures
        date_lints(at, r).len() > 0 <==> (r.start_date matches Some(s) && r.end_date matches Some(e) && forall|
            x: LocalDate,
        | !(!calendar_before(x, s) && #[trigger] calendar_before(x, e))),
        date_lints(at, r).len() > 0 ==> date_lints(at, r).len() == 1 && date_lints(at, r)[0].code
            == TariffLintCode::ImpossibleRestriction && date_lints(at, r)[0].pointer == at + "/start_date"@,
{
    reveal(date_lints);
    if let (Some(s), Some(e)) = (r.start_date, r.end_date) {
        if calendar_before(s, e) {
            assert(!calendar_before(s, s) && calendar_before(s, e));
        }
    }
}


/// Whether `x` seconds lie from `lo`, inclusive, to `hi`, exclusive.
pub open spec fn within_seconds(x: int, lo: int, hi: int) -> bool {
    lo <= x && x < hi
}

/// A duration window is flagged exactly when no whole number of seconds lies in it: none at or
/// above `min_duration` and below `max_duration`, which is exclusive.
pub proof fn lemma_durations_flagged_exactly_when_none_fits(at: Seq<char>, r: TariffRestrictions)
    ensures
        duration_lints(at, r).len() > 0 <==> (r.min_duration matches Some(lo) && r.max_duration matches Some(hi)
            && forall|x: int| !#[trigger] within_seconds(x, lo as int, hi as int)),
{
    reveal(duration_lints);
    if let (Some(lo), Some(hi)) = (r.min_duration, r.max_duration) {
        if lo < hi {
            assert(within_seconds(lo as int, lo as int, hi as int));
        }
    }
}

/// Restrictions flagged for a date or duration window nothing can fall in never match: no
/// moment of any session is priced by their element.
pub proof fn lemma_flagged_windows_never_match(at: Seq<char>, r: TariffRestrictions, c: RestrictionContext)
    ensures
        date_lints(at, r).len() > 0 ==> !restriction_matches(r, c),
        duration_lints(at, r).len() > 0 ==> !restriction_matches(r, c),
{
    reveal(date_lints);
    reveal(duration_lints);
}

} // verus!
