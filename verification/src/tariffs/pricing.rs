//! Pricing a whole session: the magnitudes checked, a tariff chosen per charging period, each
//! period's quantities priced by the Price Component its restrictions select, `step_size`
//! applied once per session, every stretch costed, and the result finished into a breakdown.

use vstd::prelude::*;

use crate::strings::{dec_digits, push_decimal, push_str, str_eq_ignore_case};
use crate::types::datetime::{in_unix_range, DateTime};
use crate::types::number::{checked_total, checked_total_prefix, Number};

use super::breakdown::{CostBreakdown, DimensionCost, PricedSegment, PricingNote};
use super::codes::{AppliedComponent, PricingNoteCode};
use super::engine::{basis_of, finished, note_views, tariff_basis, NoteView, PricingEngine};
use super::input::{energies, out_of_order_at, PricedPeriod, PricedSession, ProfileType};
use super::model::{
    dimension_wire, tariff_active_at, Price, PriceComponent, Tariff, TariffDimensionType, TariffElement, TariffType,
};
use super::policy::PricingPolicy;
use super::quantise::{dim_views, quantised_costs, segment_view, segment_views, DimView, Segment, SegmentView};
use super::restrictions::{context_reading, context_text, find_component, selected_component, RestrictionContext};
use super::zone::PricingError;

verus! {

/// The largest magnitude of a quantity or price this engine prices: a trillion of any unit,
/// far past every real session and well inside what the decimal arithmetic holds.
pub open spec fn magnitude_limit() -> Number {
    Number::from_integer(1_000_000_000_000)
}

/// Whether `value` is beyond [`magnitude_limit`] in magnitude.
pub open spec fn beyond_limit(value: Number) -> bool {
    crate::types::number::numeric_lt(magnitude_limit(), value.spec_abs())
}

/// A figure the range check looks at: what it is, in words, and its value.
pub type RangeCheck = (Seq<char>, Number);

/// The four quantities of period `index`.
pub open spec fn period_quantity_checks(p: PricedPeriod, index: int) -> Seq<RangeCheck> {
    let i = dec_digits(index as nat);
    seq![
        ("the ENERGY of Charging Period "@ + i, p.energy_kwh),
        ("the TIME of Charging Period "@ + i, p.charging_hours),
        ("the PARKING_TIME of Charging Period "@ + i, p.parking_hours),
        ("the RESERVATION_TIME of Charging Period "@ + i, p.reservation_hours),
    ]
}

/// The quantities of the first `n` periods, in order.
pub open spec fn period_checks(periods: Seq<PricedPeriod>, n: int) -> Seq<RangeCheck>
    decreases n,
{
    if n <= 0 {
        Seq::empty()
    } else {
        period_checks(periods, n - 1) + period_quantity_checks(periods[n - 1], n - 1)
    }
}

/// The price and VAT of component `c` of element `e` of the tariff with id `id`.
pub open spec fn component_checks(id: Seq<char>, e: int, c: int, pc: PriceComponent) -> Seq<RangeCheck> {
    let at = " of tariff "@ + id + " element "@ + dec_digits(e as nat) + " component "@ + dec_digits(c as nat);
    seq![("the price"@ + at, pc.price)] + match pc.vat {
        Some(v) => seq![("the VAT"@ + at, v)],
        None => Seq::empty(),
    }
}

/// The components of element `e`, the first `n` of them.
pub open spec fn element_checks(id: Seq<char>, e: int, el: TariffElement, n: int) -> Seq<RangeCheck>
    decreases n,
{
    if n <= 0 {
        Seq::empty()
    } else {
        element_checks(id, e, el, n - 1) + component_checks(id, e, n - 1, el.price_components@[n - 1])
    }
}

/// The components of the first `n` elements of `t`.
pub open spec fn elements_checks(t: Tariff, n: int) -> Seq<RangeCheck>
    decreases n,
{
    if n <= 0 {
        Seq::empty()
    } else {
        let el = t.elements@[n - 1];
        elements_checks(t, n - 1) + element_checks(t.id@, n - 1, el, el.price_components@.len() as int)
    }
}

/// The bounds of a price limit called `name`.
pub open spec fn limit_checks(id: Seq<char>, name: Seq<char>, limit: Option<Price>) -> Seq<RangeCheck> {
    match limit {
        Some(p) => seq![("the "@ + name + ".before_taxes of tariff "@ + id, p.before_taxes)] + match p.after_taxes {
            Some(a) => seq![("the "@ + name + ".after_taxes of tariff "@ + id, a)],
            None => Seq::empty(),
        },
        None => Seq::empty(),
    }
}

/// Everything in one tariff: its components, then its price limits.
pub open spec fn tariff_checks(t: Tariff) -> Seq<RangeCheck> {
    elements_checks(t, t.elements@.len() as int) + limit_checks(t.id@, "min_price"@, t.min_price)
        + limit_checks(t.id@, "max_price"@, t.max_price)
}

/// Everything in the first `n` tariffs.
pub open spec fn tariffs_checks(tariffs: Seq<Tariff>, n: int) -> Seq<RangeCheck>
    decreases n,
{
    if n <= 0 {
        Seq::empty()
    } else {
        tariffs_checks(tariffs, n - 1) + tariff_checks(tariffs[n - 1])
    }
}

/// Every figure the range check looks at, in the order it looks at them: each period's
/// quantities, then each tariff's prices, VAT percentages and price limits.
pub open spec fn range_checks(session: PricedSession, tariffs: Seq<Tariff>) -> Seq<RangeCheck> {
    period_checks(session.periods@, session.periods@.len() as int) + tariffs_checks(
        tariffs,
        tariffs.len() as int,
    )
}

/// The first figure beyond the limit, if any.
pub open spec fn first_beyond(checks: Seq<RangeCheck>) -> Option<int> {
    if exists|i: int| 0 <= i < checks.len() && beyond_limit(#[trigger] checks[i].1) {
        Some(
            choose|i: int|
                0 <= i < checks.len() && beyond_limit(checks[i].1) && forall|j: int|
                    0 <= j < i ==> !beyond_limit(#[trigger] checks[j].1),
        )
    } else {
        None
    }
}

/// The views of checks built at run time.
pub open spec fn check_views(v: Seq<(String, Number)>) -> Seq<RangeCheck> {
    v.map_values(|c: (String, Number)| (c.0@, c.1))
}

/// Appends one figure to the checks.
fn add_check(out: &mut Vec<(String, Number)>, what: String, value: Number)
    ensures
        check_views(final(out)@) == check_views(old(out)@).push((what@, value)),
{
    let ghost w = what@;
    out.push((what, value));
    proof {
        assert(check_views(out@) =~= check_views(old(out)@).push((w, value)));
    }
}

/// The text `prefix` followed by `rest`.
fn text2(prefix: &str, rest: &str) -> (s: String)
    ensures
        s@ == prefix@ + rest@,
{
    let mut s = String::new();
    push_str(&mut s, prefix);
    push_str(&mut s, rest);
    s
}

/// Collects every figure the range check looks at.
fn collect_checks(session: &PricedSession, tariffs: &[Tariff]) -> (r: Vec<(String, Number)>)
    ensures
        check_views(r@) == range_checks(*session, tariffs@),
{
    let mut out: Vec<(String, Number)> = Vec::new();
    let n = session.periods.len();
    let mut i: usize = 0;
    assert(check_views(out@) =~= period_checks(session.periods@, 0));
    while i < n
        invariant
            i <= n,
            n == session.periods@.len(),
            check_views(out@) == period_checks(session.periods@, i as int),
        decreases n - i,
    {
        let p = &session.periods[i];
        let mut idx = String::new();
        push_decimal(&mut idx, i as u64);
        let ghost before = check_views(out@);
        add_check(&mut out, text2("the ENERGY of Charging Period ", idx.as_str()), p.energy_kwh);
        add_check(&mut out, text2("the TIME of Charging Period ", idx.as_str()), p.charging_hours);
        add_check(&mut out, text2("the PARKING_TIME of Charging Period ", idx.as_str()), p.parking_hours);
        add_check(&mut out, text2("the RESERVATION_TIME of Charging Period ", idx.as_str()), p.reservation_hours);
        proof {
            assert(check_views(out@) =~= before + period_quantity_checks(session.periods@[i as int], i as int));
        }
        i = i + 1;
    }
    let ghost periods = check_views(out@);
    let m = tariffs.len();
    let mut t: usize = 0;
    assert(periods + tariffs_checks(tariffs@, 0) =~= periods);
    while t < m
        invariant
            t <= m,
            m == tariffs@.len(),
            check_views(out@) == periods + tariffs_checks(tariffs@, t as int),
        decreases m - t,
    {
        let tariff = &tariffs[t];
        let ghost before = check_views(out@);
        add_tariff_checks(&mut out, tariff);
        proof {
            assert(check_views(out@) =~= periods + tariffs_checks(tariffs@, t + 1));
        }
        t = t + 1;
    }
    out
}

/// Appends the figures of one tariff.
fn add_tariff_checks(out: &mut Vec<(String, Number)>, tariff: &Tariff)
    ensures
        check_views(final(out)@) == check_views(old(out)@) + tariff_checks(*tariff),
{
    let ghost start = check_views(out@);
    let id = tariff.id.as_str();
    let ne = tariff.elements.len();
    let mut e: usize = 0;
    assert(start + elements_checks(*tariff, 0) =~= start);
    while e < ne
        invariant
            e <= ne,
            ne == tariff.elements@.len(),
            id@ == tariff.id@,
            check_views(out@) == start + elements_checks(*tariff, e as int),
        decreases ne - e,
    {
        let el = &tariff.elements[e];
        let nc = el.price_components.len();
        let mut c: usize = 0;
        let ghost at_el = check_views(out@);
        assert(at_el + element_checks(id@, e as int, *el, 0) =~= at_el);
        while c < nc
            invariant
                c <= nc,
                nc == el.price_components@.len(),
                e < ne,
                ne == tariff.elements@.len(),
                *el == tariff.elements@[e as int],
                id@ == tariff.id@,
                check_views(out@) == at_el + element_checks(id@, e as int, *el, c as int),
            decreases nc - c,
        {
            let pc = &el.price_components[c];
            let mut at = String::new();
            push_str(&mut at, " of tariff ");
            push_str(&mut at, id);
            push_str(&mut at, " element ");
            push_decimal(&mut at, e as u64);
            push_str(&mut at, " component ");
            push_decimal(&mut at, c as u64);
            let ghost before = check_views(out@);
            add_check(out, text2("the price", at.as_str()), pc.price);
            match pc.vat {
                Some(v) => add_check(out, text2("the VAT", at.as_str()), v),
                None => {},
            }
            proof {
                assert(check_views(out@) =~= before + component_checks(id@, e as int, c as int, *pc));
                assert(at_el + element_checks(id@, e as int, *el, c + 1) =~= before + component_checks(
                    id@,
                    e as int,
                    c as int,
                    *pc,
                ));
            }
            c = c + 1;
        }
        proof {
            assert(start + elements_checks(*tariff, e + 1) =~= at_el + element_checks(
                id@,
                e as int,
                *el,
                nc as int,
            ));
        }
        e = e + 1;
    }
    let ghost before_limits = check_views(out@);
    add_limit_checks(out, id, "min_price", &tariff.min_price);
    add_limit_checks(out, id, "max_price", &tariff.max_price);
    proof {
        assert(check_views(out@) =~= start + tariff_checks(*tariff));
    }
}

/// Appends the figures of one price limit.
fn add_limit_checks(out: &mut Vec<(String, Number)>, id: &str, name: &str, limit: &Option<Price>)
    ensures
        check_views(final(out)@) == check_views(old(out)@) + limit_checks(id@, name@, *limit),
{
    let ghost start = check_views(out@);
    match limit {
        Some(p) => {
            let mut w = String::new();
            push_str(&mut w, "the ");
            push_str(&mut w, name);
            push_str(&mut w, ".before_taxes of tariff ");
            push_str(&mut w, id);
            add_check(out, w, p.before_taxes);
            match p.after_taxes {
                Some(a) => {
                    let mut w2 = String::new();
                    push_str(&mut w2, "the ");
                    push_str(&mut w2, name);
                    push_str(&mut w2, ".after_taxes of tariff ");
                    push_str(&mut w2, id);
                    add_check(out, w2, a);
                },
                None => {},
            }
            proof {
                assert(check_views(out@) =~= start + limit_checks(id@, name@, *limit));
            }
        },
        None => {
            assert(check_views(out@) =~= start + limit_checks(id@, name@, *limit));
        },
    }
}

/// The first of `checks` beyond the limit, taken out of them.
fn take_first_beyond(given: Vec<(String, Number)>) -> (r: Option<(String, Number)>)
    ensures
        match first_beyond(check_views(given@)) {
            None => r is None,
            Some(i) => r matches Some(c) && (c.0@, c.1) == check_views(given@)[i],
        },
{
    let mut checks = given;
    let ghost all = check_views(checks@);
    let limit = Number::from(1_000_000_000_000i64);
    proof {
        Number::lemma_integer(1_000_000_000_000);
    }
    let n = checks.len();
    let mut i: usize = 0;
    while i < n
        invariant
            i <= n,
            n == checks@.len(),
            check_views(checks@) == all,
            check_views(given@) == all,
            limit == magnitude_limit(),
            forall|j: int| 0 <= j < i ==> !beyond_limit(#[trigger] all[j].1),
        decreases n - i,
    {
        let value = checks[i].1;
        assert(all[i as int].1 == value);
        if limit.is_less_than(&value.abs()) {
            proof {
                let k = i as int;
                assert(beyond_limit(all[k].1));
                let c = choose|x: int|
                    0 <= x < all.len() && beyond_limit(all[x].1) && forall|j: int|
                        0 <= j < x ==> !beyond_limit(#[trigger] all[j].1);
                if c < k {
                    assert(!beyond_limit(all[c].1));
                } else if c > k {
                    assert(!beyond_limit(all[k].1));
                }
                assert(all[k] == (checks@[k].0@, checks@[k].1));
                assert(first_beyond(all) == Some(k));
            }
            let ghost before = checks@;
            let c = checks.remove(i);
            assert(c == before[i as int]);
            assert((c.0@, c.1) == all[i as int]);
            return Some(c);
        }
        i = i + 1;
    }
    None
}

/// Refuses input whose quantities or prices are beyond [`magnitude_limit`], naming the first
/// such figure in the order [`range_checks`] looks at them.
pub fn check_range(session: &PricedSession, tariffs: &[Tariff]) -> (r: Result<(), PricingError>)
    ensures
        match first_beyond(range_checks(*session, tariffs@)) {
            None => r is Ok,
            Some(i) => r matches Err(PricingError::OutOfRange { what, value, limit }) && what@
                == range_checks(*session, tariffs@)[i].0 && value == range_checks(*session, tariffs@)[i].1
                && limit == magnitude_limit(),
        },
{
    let checks = collect_checks(session, tariffs);
    match take_first_beyond(checks) {
        Some((what, value)) => {
            let limit = Number::from(1_000_000_000_000i64);
            proof {
                Number::lemma_integer(1_000_000_000_000);
            }
            Err(PricingError::OutOfRange { what, value, limit })
        },
        None => Ok(()),
    }
}

/// A pricing error as the contracts see it: its kind, with its text as characters.
pub enum FailureView {
    /// No tariff was given.
    NoTariff,
    /// A period named a tariff id that was not given.
    UnknownTariff(Seq<char>),
    /// No tariff was active at the moment.
    NoActiveTariff(DateTime),
    /// The time zone could not give the local time.
    TimeZone(Seq<char>),
    /// A figure beyond the limit.
    OutOfRange(Seq<char>, Number, Number),
}

/// The view of a pricing error.
pub open spec fn failure_view(e: PricingError) -> FailureView {
    match e {
        PricingError::NoTariff => FailureView::NoTariff,
        PricingError::UnknownTariff(id) => FailureView::UnknownTariff(id@),
        PricingError::NoActiveTariff(at) => FailureView::NoActiveTariff(at),
        PricingError::TimeZone(m) => FailureView::TimeZone(m@),
        PricingError::OutOfRange { what, value, limit } => FailureView::OutOfRange(what@, value, limit),
    }
}

/// Which tariffs a search for an active tariff accepts.
#[derive(Clone, Copy, Debug, PartialEq, Eq, Structural)]
pub enum TypeWanted {
    /// Any active tariff.
    Any,
    /// An active tariff of this type.
    Exactly(TariffType),
    /// An active tariff with no type, which is for every session.
    Untyped,
}

/// Whether `t` is active at `at` and of the type wanted.
pub open spec fn active_with(t: Tariff, at: DateTime, want: TypeWanted) -> bool {
    tariff_active_at(t, at) && match want {
        TypeWanted::Any => true,
        TypeWanted::Exactly(w) => t.tariff_type == Some(w),
        TypeWanted::Untyped => t.tariff_type is None,
    }
}

/// The first of `ts` active at `at` and of the type wanted.
#[verifier::opaque]
pub open spec fn first_active_with(ts: Seq<Tariff>, at: DateTime, want: TypeWanted) -> Option<int> {
    if exists|i: int| 0 <= i < ts.len() && active_with(#[trigger] ts[i], at, want) {
        Some(
            choose|i: int|
                0 <= i < ts.len() && active_with(ts[i], at, want) && forall|j: int|
                    0 <= j < i ==> !active_with(#[trigger] ts[j], at, want),
        )
    } else {
        None
    }
}

/// The first of `ts` whose id is `id`, ignoring ASCII case.
#[verifier::opaque]
pub open spec fn first_with_id(ts: Seq<Tariff>, id: Seq<char>) -> Option<int> {
    if exists|i: int| 0 <= i < ts.len() && str_eq_ignore_case(#[trigger] ts[i].id@, id) {
        Some(
            choose|i: int|
                0 <= i < ts.len() && str_eq_ignore_case(ts[i].id@, id) && forall|j: int|
                    0 <= j < i ==> !str_eq_ignore_case(#[trigger] ts[j].id@, id),
        )
    } else {
        None
    }
}

/// The first tariff active at `at` and of the type wanted.
fn first_active(tariffs: &[Tariff], at: DateTime, want: TypeWanted) -> (r: Option<usize>)
    ensures
        match r {
            Some(k) => first_active_with(tariffs@, at, want) == Some(k as int),
            None => first_active_with(tariffs@, at, want) is None,
        },
        r matches Some(k) ==> k < tariffs@.len(),
{
    proof {
        reveal(first_active_with);
    }
    let n = tariffs.len();
    let mut i: usize = 0;
    while i < n
        invariant
            i <= n,
            n == tariffs@.len(),
            forall|j: int| 0 <= j < i ==> !active_with(#[trigger] tariffs@[j], at, want),
        decreases n - i,
    {
        let t = &tariffs[i];
        let kind_ok = match want {
            TypeWanted::Any => true,
            TypeWanted::Exactly(w) => match t.tariff_type {
                Some(ty) => ty == w,
                None => false,
            },
            TypeWanted::Untyped => t.tariff_type.is_none(),
        };
        if t.is_active_at(at) && kind_ok {
            proof {
                reveal(first_active_with);
                let ts = tariffs@;
                let k = i as int;
                let c = choose|x: int|
                    0 <= x < ts.len() && active_with(ts[x], at, want) && forall|j: int|
                        0 <= j < x ==> !active_with(#[trigger] ts[j], at, want);
                assert(active_with(ts[k], at, want));
                if c < k {
                    assert(!active_with(ts[c], at, want));
                } else if c > k {
                    assert(!active_with(ts[k], at, want));
                }
            }
            return Some(i);
        }
        i = i + 1;
    }
    None
}

/// The type of tariff a session prefers: the ad-hoc one when the driver paid ad hoc, else the
/// one matching the charging preference, if there is one.
pub open spec fn wanted_type(s: PricedSession) -> Option<TariffType> {
    if s.ad_hoc_payment {
        Some(TariffType::AdHocPayment)
    } else {
        match s.profile_type {
            Some(ProfileType::Cheap) => Some(TariffType::ProfileCheap),
            Some(ProfileType::Fast) => Some(TariffType::ProfileFast),
            Some(ProfileType::Green) => Some(TariffType::ProfileGreen),
            Some(ProfileType::Regular) => Some(TariffType::Regular),
            None => None,
        }
    }
}

/// The tariff that applies at `at` by preference: among those active then, the first of the
/// type the session prefers, else the first with no type, which is for every session, else the
/// first at all; an error where none is active.
pub open spec fn by_preference(s: PricedSession, at: DateTime, ts: Seq<Tariff>) -> Result<int, FailureView> {
    match first_active_with(ts, at, TypeWanted::Any) {
        None => Err(FailureView::NoActiveTariff(at)),
        Some(first) => {
            let preferred = match wanted_type(s) {
                Some(w) => first_active_with(ts, at, TypeWanted::Exactly(w)),
                None => None,
            };
            match preferred {
                Some(i) => Ok(i),
                None => match first_active_with(ts, at, TypeWanted::Untyped) {
                    Some(i) => Ok(i),
                    None => Ok(first),
                },
            }
        },
    }
}

/// The tariff that applies to a charging period: the one its `tariff_id` names, ignoring ASCII
/// case, and otherwise the one preferred at its start.
pub open spec fn selected_tariff(s: PricedSession, p: PricedPeriod, ts: Seq<Tariff>) -> Result<int, FailureView> {
    match p.tariff_id {
        Some(id) => match first_with_id(ts, id@) {
            Some(i) => Ok(i),
            None => Err(FailureView::UnknownTariff(id@)),
        },
        None => by_preference(s, p.start, ts),
    }
}

/// The result of a tariff search as the contracts see it.
pub open spec fn index_view(r: Result<usize, PricingError>) -> Result<int, FailureView> {
    match r {
        Ok(i) => Ok(i as int),
        Err(e) => Err(failure_view(e)),
    }
}

/// The tariff that applies at `at` by preference.
fn select_by_preference(session: &PricedSession, at: DateTime, tariffs: &[Tariff]) -> (r: Result<usize, PricingError>)
    ensures
        index_view(r) == by_preference(*session, at, tariffs@),
        r matches Ok(k) ==> k < tariffs@.len(),
{
    let first = match first_active(tariffs, at, TypeWanted::Any) {
        Some(i) => i,
        None => return Err(PricingError::NoActiveTariff(at)),
    };
    let wanted = if session.ad_hoc_payment {
        Some(TariffType::AdHocPayment)
    } else {
        match session.profile_type {
            Some(ProfileType::Cheap) => Some(TariffType::ProfileCheap),
            Some(ProfileType::Fast) => Some(TariffType::ProfileFast),
            Some(ProfileType::Green) => Some(TariffType::ProfileGreen),
            Some(ProfileType::Regular) => Some(TariffType::Regular),
            None => None,
        }
    };
    assert(wanted == wanted_type(*session));
    if let Some(w) = wanted {
        if let Some(i) = first_active(tariffs, at, TypeWanted::Exactly(w)) {
            return Ok(i);
        }
    }
    match first_active(tariffs, at, TypeWanted::Untyped) {
        Some(i) => Ok(i),
        None => Ok(first),
    }
}

/// The tariff that applies to a charging period.
fn select_tariff(session: &PricedSession, period: &PricedPeriod, tariffs: &[Tariff]) -> (r: Result<usize, PricingError>)
    ensures
        index_view(r) == selected_tariff(*session, *period, tariffs@),
        r matches Ok(k) ==> k < tariffs@.len(),
{
    match &period.tariff_id {
        Some(id) => {
            assert(period.tariff_id == Some(*id));
            proof {
                reveal(first_with_id);
            }
            let n = tariffs.len();
            let mut i: usize = 0;
            while i < n
                invariant
                    i <= n,
                    n == tariffs@.len(),
                    period.tariff_id == Some(*id),
                    forall|j: int| 0 <= j < i ==> !str_eq_ignore_case(#[trigger] tariffs@[j].id@, id@),
                decreases n - i,
            {
                if tariffs[i].id.eq_ignore_case(id.as_str()) {
                    proof {
                        reveal(first_with_id);
                        let ts = tariffs@;
                        let k = i as int;
                        assert(str_eq_ignore_case(ts[k].id@, id@));
                        let c = choose|x: int|
                            0 <= x < ts.len() && str_eq_ignore_case(ts[x].id@, id@) && forall|j: int|
                                0 <= j < x ==> !str_eq_ignore_case(#[trigger] ts[j].id@, id@);
                        if c < k {
                            assert(!str_eq_ignore_case(ts[c].id@, id@));
                        } else if c > k {
                            assert(!str_eq_ignore_case(ts[k].id@, id@));
                        }
                        assert(first_with_id(ts, id@) == Some(k));
                    }
                    return Ok(i);
                }
                i = i + 1;
            }
            Err(PricingError::UnknownTariff(id.clone()))
        },
        None => select_by_preference(session, period.start, tariffs),
    }
}

/// What pricing has gathered after some charging periods: the stretches to be costed, the
/// notes, and whether the flat fee has been charged.
pub type PeriodState = (Seq<SegmentView>, Seq<NoteView>, bool);

/// The quantities of a period, in the order they are priced, each with whether it is reserved
/// time: energy, charging time, reserved time (priced as TIME), parking time.
pub open spec fn period_quantities(p: PricedPeriod) -> Seq<(TariffDimensionType, Number, bool)> {
    seq![
        (TariffDimensionType::Energy, p.energy_kwh, false),
        (TariffDimensionType::Time, p.charging_hours, false),
        (TariffDimensionType::Time, p.reservation_hours, true),
        (TariffDimensionType::ParkingTime, p.parking_hours, false),
    ]
}

/// The message of a note saying no Price Component priced dimension `d` of a period.
pub open spec fn no_component_message(d: TariffDimensionType, id: Seq<char>, reserving: bool) -> Seq<char> {
    "no "@ + dimension_wire(d) + " Price Component in tariff "@ + id + " matched"@ + (if reserving {
        " for the reserved time"@
    } else {
        Seq::empty()
    }) + "; the specification says there are then no costs for that dimension"@
}

/// The message of a note saying a period of dimension `d` outlasts the element `e` that prices
/// it, element `later` applying by its end.
pub open spec fn spans_message(d: TariffDimensionType, e: int, later: int) -> Seq<char> {
    "the "@ + dimension_wire(d)
        + " Charging Period starting here outlasts the Price Component that prices it: element "@
        + dec_digits(e as nat) + " applies at the start and element "@ + dec_digits(later as nat)
        + " by the time the period ends. A CPO SHALL start a new Charging Period at a price change, so this one should have been split; its "@
        + dimension_wire(d) + " is billed in full at the earlier rate, because nothing in the period says how it divides"@
}

/// The message of a note saying the periods are not in time order.
pub open spec fn out_of_order_message() -> Seq<char> {
    "this Charging Period does not start after the one before it; `step_size` and every duration-based restriction are evaluated against the order given, which is not a timeline this session could have had"@
}

/// `c`, pricing reserved time or consumed time.
pub open spec fn in_context(c: RestrictionContext, reserving: bool) -> RestrictionContext {
    RestrictionContext { is_reservation: reserving, ..c }
}

/// The stretch of dimension `d` that component `k` of element `e` of `t` prices, from `start`,
/// for `quantity`, in context `c`, with the step `step`; not yet costed.
pub open spec fn found_segment(
    t: Tariff,
    d: TariffDimensionType,
    step: u32,
    start: DateTime,
    quantity: Number,
    e: int,
    k: int,
    c: RestrictionContext,
) -> SegmentView {
    let pc = t.elements@[e].price_components@[k];
    (
        d,
        step,
        (
            start,
            quantity,
            pc.price,
            pc.vat,
            Number::from_integer(0),
            Number::from_integer(0),
            tariff_basis(t.tax_included),
            (t.id@, e as usize, k as usize, c.is_reservation, context_text(c)),
        ),
    )
}

/// One quantity of a period priced by tariff `t`: nothing for a zero quantity; a note where no
/// component prices it; else the stretch the selected component prices, with a note where
/// another component would apply by the end of the period.
pub open spec fn quantity_priced(
    t: Tariff,
    start: DateTime,
    c: RestrictionContext,
    end: Option<RestrictionContext>,
    q: (TariffDimensionType, Number, bool),
    acc: (Seq<SegmentView>, Seq<NoteView>),
) -> (Seq<SegmentView>, Seq<NoteView>) {
    if q.1.spec_mantissa() == 0 {
        acc
    } else {
        let cx = in_context(c, q.2);
        let n = t.elements@.len() as int;
        match selected_component(t, n, q.0, cx) {
            None => (
                acc.0,
                acc.1.push((PricingNoteCode::NoPriceComponent, Some(start), no_component_message(q.0, t.id@, q.2))),
            ),
            Some((e, k)) => {
                let notes = match end {
                    Some(ec) => match selected_component(t, n, q.0, in_context(ec, q.2)) {
                        Some((e2, k2)) => if e2 != e || k2 != k {
                            acc.1.push((PricingNoteCode::PeriodSpansPriceChange, Some(start), spans_message(q.0, e, e2)))
                        } else {
                            acc.1
                        },
                        None => acc.1,
                    },
                    None => acc.1,
                };
                (
                    acc.0.push(
                        found_segment(t, q.0, t.elements@[e].price_components@[k].step_size, start, q.1, e, k, cx),
                    ),
                    notes,
                )
            },
        }
    }
}

/// The first `n` quantities `qs` of a period priced in turn.
pub open spec fn quantities_priced(
    t: Tariff,
    start: DateTime,
    c: RestrictionContext,
    end: Option<RestrictionContext>,
    qs: Seq<(TariffDimensionType, Number, bool)>,
    n: int,
    acc: (Seq<SegmentView>, Seq<NoteView>),
) -> (Seq<SegmentView>, Seq<NoteView>)
    decreases n,
{
    if n <= 0 {
        acc
    } else {
        quantity_priced(t, start, c, end, qs[n - 1], quantities_priced(t, start, c, end, qs, n - 1, acc))
    }
}

/// The flat fee of period `p` under tariff `t`, charged once per session: by the component
/// that prices FLAT for consumed time, else, where the period holds reserved time, by the one
/// for reserved time; with whether it has now been charged.
pub open spec fn flat_priced(
    t: Tariff,
    p: PricedPeriod,
    c: RestrictionContext,
    segs: Seq<SegmentView>,
    charged: bool,
) -> (Seq<SegmentView>, bool) {
    if charged {
        (segs, true)
    } else {
        let n = t.elements@.len() as int;
        let charging = in_context(c, false);
        let reserved = in_context(c, true);
        let one = Number::from_integer(1);
        match selected_component(t, n, TariffDimensionType::Flat, charging) {
            Some((e, k)) => (
                segs.push(found_segment(t, TariffDimensionType::Flat, 1, p.start, one, e, k, charging)),
                true,
            ),
            None => if p.reservation_hours.spec_mantissa() != 0 {
                match selected_component(t, n, TariffDimensionType::Flat, reserved) {
                    Some((e, k)) => (
                        segs.push(found_segment(t, TariffDimensionType::Flat, 1, p.start, one, e, k, reserved)),
                        true,
                    ),
                    None => (segs, false),
                }
            } else {
                (segs, false)
            },
        }
    }
}

/// The context at the start of period `i` of `s`, or the time zone's failure.
pub open spec fn start_context(s: PricedSession, i: int) -> Result<RestrictionContext, FailureView> {
    let p = s.periods@[i];
    match s.time_zone.local_reading(p.start.spec_unix()) {
        Err(m) => Err(FailureView::TimeZone(m)),
        Ok(u) => Ok(
            context_reading(
                s,
                p,
                u,
                checked_total_prefix(energies(s.periods@), i)->Some_0,
                p.start.spec_unix() - s.start.spec_unix(),
            ),
        ),
    }
}

/// The context at the last second period `i` of `s` covers, `None` where it has no known end
/// or lasts a second or less, or the time zone's failure.
pub open spec fn end_context(s: PricedSession, i: int) -> Result<Option<RestrictionContext>, FailureView> {
    let p = s.periods@[i];
    let end = if i + 1 < s.periods@.len() {
        Some(s.periods@[i + 1].start)
    } else {
        s.end
    };
    match end {
        None => Ok(None),
        Some(e) => {
            let last = e.spec_unix() - 1;
            if !in_unix_range(last) || last * 1_000_000_000 <= p.start.instant() {
                Ok(None)
            } else {
                match s.time_zone.local_reading(last) {
                    Err(m) => Err(FailureView::TimeZone(m)),
                    Ok(u) => Ok(
                        Some(
                            context_reading(
                                s,
                                p,
                                u,
                                checked_total_prefix(energies(s.periods@), i + 1)->Some_0,
                                last - s.start.spec_unix(),
                            ),
                        ),
                    ),
                }
            }
        },
    }
}

/// Period `i` of `s` priced against `ts` after the state `st`: its tariff selected, its
/// contexts at start and end read, its quantities priced, and the flat fee charged if it has
/// not been; or the first failure among these.
#[verifier::opaque]
pub open spec fn period_step(s: PricedSession, ts: Seq<Tariff>, i: int, st: PeriodState) -> Result<
    PeriodState,
    FailureView,
> {
    let p = s.periods@[i];
    match selected_tariff(s, p, ts) {
        Err(f) => Err(f),
        Ok(k) => match start_context(s, i) {
            Err(f) => Err(f),
            Ok(c) => match end_context(s, i) {
                Err(f) => Err(f),
                Ok(ec) => {
                    let t = ts[k];
                    let q = quantities_priced(t, p.start, c, ec, period_quantities(p), 4, (st.0, st.1));
                    let fl = flat_priced(t, p, c, q.0, st.2);
                    Ok((fl.0, q.1, fl.1))
                },
            },
        },
    }
}

/// The first `n` periods of `s` priced in turn from the state `st`.
pub open spec fn periods_priced(s: PricedSession, ts: Seq<Tariff>, n: int, st: PeriodState) -> Result<
    PeriodState,
    FailureView,
>
    decreases n,
{
    if n <= 0 {
        Ok(st)
    } else {
        match periods_priced(s, ts, n - 1, st) {
            Err(f) => Err(f),
            Ok(done) => period_step(s, ts, n - 1, done),
        }
    }
}

/// Writes the message of [`no_component_message`].
fn write_no_component_message(d: TariffDimensionType, id: &str, reserving: bool) -> (s: String)
    ensures
        s@ == no_component_message(d, id@, reserving),
{
    let mut s = String::new();
    push_str(&mut s, "no ");
    push_str(&mut s, d.as_str());
    push_str(&mut s, " Price Component in tariff ");
    push_str(&mut s, id);
    push_str(&mut s, " matched");
    if reserving {
        push_str(&mut s, " for the reserved time");
    }
    push_str(&mut s, "; the specification says there are then no costs for that dimension");
    proof {
        reveal_strlit("no ");
        reveal_strlit(" Price Component in tariff ");
        reveal_strlit(" matched");
        reveal_strlit(" for the reserved time");
        reveal_strlit("; the specification says there are then no costs for that dimension");
    }
    assert(s@ =~= no_component_message(d, id@, reserving));
    s
}

/// Writes the message of [`spans_message`].
fn write_spans_message(d: TariffDimensionType, e: usize, later: usize) -> (s: String)
    ensures
        s@ == spans_message(d, e as int, later as int),
{
    let mut s = String::new();
    push_str(&mut s, "the ");
    push_str(&mut s, d.as_str());
    push_str(&mut s, " Charging Period starting here outlasts the Price Component that prices it: element ");
    push_decimal(&mut s, e as u64);
    push_str(&mut s, " applies at the start and element ");
    push_decimal(&mut s, later as u64);
    push_str(
        &mut s,
        " by the time the period ends. A CPO SHALL start a new Charging Period at a price change, so this one should have been split; its ",
    );
    push_str(&mut s, d.as_str());
    push_str(&mut s, " is billed in full at the earlier rate, because nothing in the period says how it divides");
    proof {
        reveal_strlit("the ");
        reveal_strlit(" Charging Period starting here outlasts the Price Component that prices it: element ");
        reveal_strlit(" applies at the start and element ");
        reveal_strlit(
            " by the time the period ends. A CPO SHALL start a new Charging Period at a price change, so this one should have been split; its ",
        );
        reveal_strlit(" is billed in full at the earlier rate, because nothing in the period says how it divides");
    }
    assert(s@ =~= spans_message(d, e as int, later as int));
    s
}

/// The stretch component `k` of element `e` of `tariff` prices, not yet costed.
fn found(
    tariff: &Tariff,
    d: TariffDimensionType,
    step: u32,
    start: DateTime,
    quantity: Number,
    e: usize,
    k: usize,
    context: &RestrictionContext,
) -> (s: Segment)
    requires
        e < tariff.elements@.len(),
        k < tariff.elements@[e as int].price_components@.len(),
    ensures
        segment_view(s) == found_segment(*tariff, d, step, start, quantity, e as int, k as int, *context),
{
    let pc = &tariff.elements[e].price_components[k];
    Segment {
        dimension: d,
        step_size: step,
        priced: PricedSegment {
            start,
            quantity,
            price: pc.price,
            vat_percentage: pc.vat,
            cost: Number::zero(),
            tax: Number::zero(),
            tax_basis: basis_of(tariff),
            applied: AppliedComponent {
                tariff_id: tariff.id.as_str().to_owned(),
                element_index: e,
                component_index: k,
                reservation: context.is_reservation,
                because: context.describe(),
            },
        },
    }
}

/// Prices one quantity of a period, as [`quantity_priced`] says.
fn price_quantity(
    tariff: &Tariff,
    start: DateTime,
    context: &RestrictionContext,
    end: &Option<RestrictionContext>,
    d: TariffDimensionType,
    quantity: Number,
    reserving: bool,
    segments: &mut Vec<Segment>,
    notes: &mut Vec<PricingNote>,
)
    ensures
        (segment_views(final(segments)@), note_views(final(notes)@)) == quantity_priced(
            *tariff,
            start,
            *context,
            *end,
            (d, quantity, reserving),
            (segment_views(old(segments)@), note_views(old(notes)@)),
        ),
{
    if quantity.is_zero() {
        return;
    }
    let cx = context.reserving(reserving);
    match find_component(tariff, d, &cx) {
        None => {
            let message = write_no_component_message(d, tariff.id.as_str(), reserving);
            notes.push(PricingNote { code: PricingNoteCode::NoPriceComponent, at: Some(start), message });
            proof {
                assert(note_views(notes@) =~= note_views(old(notes)@).push(
                    (PricingNoteCode::NoPriceComponent, Some(start), no_component_message(d, tariff.id@, reserving)),
                ));
            }
        },
        Some((e, k)) => {
            match end {
                Some(ec) => {
                    let later = ec.reserving(reserving);
                    match find_component(tariff, d, &later) {
                        Some((e2, k2)) => {
                            if e2 != e || k2 != k {
                                let message = write_spans_message(d, e, e2);
                                notes.push(
                                    PricingNote { code: PricingNoteCode::PeriodSpansPriceChange, at: Some(start), message },
                                );
                                proof {
                                    assert(note_views(notes@) =~= note_views(old(notes)@).push(
                                        (PricingNoteCode::PeriodSpansPriceChange, Some(start), spans_message(d, e as int, e2 as int)),
                                    ));
                                }
                            }
                        },
                        None => {},
                    }
                },
                None => {},
            }
            let step = tariff.elements[e].price_components[k].step_size;
            let seg = found(tariff, d, step, start, quantity, e, k, &cx);
            let ghost before = segments@;
            segments.push(seg);
            proof {
                assert(segment_views(segments@) =~= segment_views(before).push(segment_view(seg)));
            }
        },
    }
}

/// Charges the flat fee of a period, as [`flat_priced`] says.
fn price_flat(
    tariff: &Tariff,
    period: &PricedPeriod,
    context: &RestrictionContext,
    segments: &mut Vec<Segment>,
    charged: &mut bool,
)
    ensures
        (segment_views(final(segments)@), *final(charged)) == flat_priced(
            *tariff,
            *period,
            *context,
            segment_views(old(segments)@),
            *old(charged),
        ),
{
    if *charged {
        return;
    }
    let charging = context.reserving(false);
    let reserved = context.reserving(true);
    let chosen = match find_component(tariff, TariffDimensionType::Flat, &charging) {
        Some((e, k)) => Some((e, k, charging)),
        None => if !period.reservation_hours.is_zero() {
            match find_component(tariff, TariffDimensionType::Flat, &reserved) {
                Some((e, k)) => Some((e, k, reserved)),
                None => None,
            }
        } else {
            None
        },
    };
    if let Some((e, k, cx)) = chosen {
        let seg = found(tariff, TariffDimensionType::Flat, 1, period.start, Number::one(), e, k, &cx);
        let ghost before = segments@;
        segments.push(seg);
        *charged = true;
        proof {
            assert(segment_views(segments@) =~= segment_views(before).push(segment_view(seg)));
        }
    }
}

/// Prices period `index` of `session` against `tariffs`, as [`period_step`] says.
fn price_period(
    session: &PricedSession,
    index: usize,
    tariffs: &[Tariff],
    segments: &mut Vec<Segment>,
    notes: &mut Vec<PricingNote>,
    charged: &mut bool,
) -> (r: Result<(), PricingError>)
    requires
        index < session.periods@.len(),
        checked_total(energies(session.periods@)) is Some,
    ensures
        match period_step(
            *session,
            tariffs@,
            index as int,
            (segment_views(old(segments)@), note_views(old(notes)@), *old(charged)),
        ) {
            Ok(st) => r is Ok && st == (segment_views(final(segments)@), note_views(final(notes)@), *final(charged)),
            Err(f) => r matches Err(e) && failure_view(e) == f,
        },
{
    proof {
        reveal(period_step);
    }
    let count = session.periods.len();
    let period = &session.periods[index];
    let k = match select_tariff(session, period, tariffs) {
        Ok(k) => k,
        Err(e) => return Err(e),
    };
    let tariff = &tariffs[k];
    proof {
        crate::tariffs::breakdown::lemma_prefix_defined(
            energies(session.periods@),
            index as int + 1,
            session.periods@.len() as int,
        );
        crate::tariffs::breakdown::lemma_prefix_defined(
            energies(session.periods@),
            index as int,
            session.periods@.len() as int,
        );
        assert(energies(session.periods@)[index as int] == period.energy_kwh);
    }
    let context = match RestrictionContext::build(session, index, period) {
        Ok(c) => c,
        Err(e) => return Err(e),
    };
    let end = match RestrictionContext::build_at_end(session, index, period) {
        Ok(c) => c,
        Err(e) => return Err(e),
    };
    assert(Ok::<RestrictionContext, FailureView>(context) == start_context(*session, index as int));
    assert(Ok::<Option<RestrictionContext>, FailureView>(end) == end_context(*session, index as int));
    let ghost acc0 = (segment_views(segments@), note_views(notes@));
    price_quantity(tariff, period.start, &context, &end, TariffDimensionType::Energy, period.energy_kwh, false, segments, notes);
    price_quantity(tariff, period.start, &context, &end, TariffDimensionType::Time, period.charging_hours, false, segments, notes);
    price_quantity(tariff, period.start, &context, &end, TariffDimensionType::Time, period.reservation_hours, true, segments, notes);
    price_quantity(tariff, period.start, &context, &end, TariffDimensionType::ParkingTime, period.parking_hours, false, segments, notes);
    proof {
        reveal_with_fuel(quantities_priced, 5);
        assert((segment_views(segments@), note_views(notes@)) == quantities_priced(
            *tariff,
            period.start,
            context,
            end,
            period_quantities(*period),
            4,
            acc0,
        ));
    }
    price_flat(tariff, period, &context, segments, charged);
    Ok(())
}

/// The notes pricing starts with: one at the first period that does not start after the one
/// before it, if there is one.
pub open spec fn out_of_order_notes(s: PricedSession) -> Seq<NoteView> {
    match out_of_order_at(s.periods@, s.periods@.len() as int) {
        Some(i) => seq![(PricingNoteCode::PeriodsOutOfOrder, Some(s.periods@[i].start), out_of_order_message())],
        None => Seq::empty(),
    }
}

/// What pricing `s` against `ts` under `policy` comes to before the breakdown is finished: the
/// dimensions costed, the tariff whose price limits apply, and the notes; or the failure.
///
/// With no tariff there is nothing to price; a figure beyond [`magnitude_limit`] is refused;
/// each period is priced in turn by its tariff; `step_size` is applied and every stretch
/// costed; and the limits are those of the tariff preferred at the start of the session.
/// `None` where the decimal arithmetic overflows.
pub open spec fn priced(policy: PricingPolicy, s: PricedSession, ts: Seq<Tariff>) -> Option<
    Result<(Seq<DimView>, int, Seq<NoteView>), FailureView>,
> {
    if ts.len() == 0 {
        Some(Err(FailureView::NoTariff))
    } else {
        let checks = range_checks(s, ts);
        match first_beyond(checks) {
            Some(j) => Some(Err(FailureView::OutOfRange(checks[j].0, checks[j].1, magnitude_limit()))),
            None => if checked_total(energies(s.periods@)) is None {
                None
            } else {
                match periods_priced(s, ts, s.periods@.len() as int, (Seq::empty(), out_of_order_notes(s), false)) {
                    Err(f) => Some(Err(f)),
                    Ok((segs, notes, _)) => match quantised_costs(policy, segs, notes) {
                        None => None,
                        Some((dims, costed_notes)) => match by_preference(s, s.start, ts) {
                            Err(f) => Some(Err(f)),
                            Ok(k) => Some(Ok((dims, k, costed_notes))),
                        },
                    },
                }
            },
        }
    }
}

/// A failure at one period is the failure of every longer run of periods.
proof fn lemma_failure_stays(s: PricedSession, ts: Seq<Tariff>, a: int, b: int, st: PeriodState)
    requires
        0 <= a <= b,
        periods_priced(s, ts, a, st) is Err,
    ensures
        periods_priced(s, ts, b, st) == periods_priced(s, ts, a, st),
    decreases b - a,
{
    if a < b {
        lemma_failure_stays(s, ts, a, b - 1, st);
    }
}

impl PricingEngine {
    /// Prices `session` against `tariffs`.
    ///
    /// Each charging period uses the tariff its `tariff_id` names; a period with none uses the
    /// first tariff active at its start whose type matches the session's preference, else the
    /// first with no type, else the first active. The flat fee is charged once; reserved time
    /// is priced by the elements for reserved time; the breakdown notes periods out of order,
    /// quantities no component prices, and periods that outlast their price.
    ///
    /// The decimal arithmetic of the whole computation stays within its 96 bits.
    pub fn price(&self, session: &PricedSession, tariffs: &[Tariff]) -> (r: Result<CostBreakdown, PricingError>)
        requires
            priced(self.spec_policy(), *session, tariffs@) is Some,
            priced(self.spec_policy(), *session, tariffs@) matches Some(Ok((dims, k, notes))) ==> forall|
                d: Seq<DimensionCost>,
            |
                #[trigger] dim_views(d) == dims ==> finished(
                    self.spec_policy(),
                    d,
                    tariffs@[k].min_price,
                    tariffs@[k].max_price,
                    notes,
                ) is Some,
        ensures
            tariffs@.len() == 0 ==> r matches Err(PricingError::NoTariff),
            match priced(self.spec_policy(), *session, tariffs@) {
                Some(Err(f)) => r matches Err(e) && failure_view(e) == f,
                Some(Ok((dims, k, notes))) => r matches Ok(b) && dim_views(b.dimensions@) == dims && finished(
                    self.spec_policy(),
                    b.dimensions@,
                    tariffs@[k].min_price,
                    tariffs@[k].max_price,
                    notes,
                ) == Some(
                    (b.taxes@, b.total_excl_vat, b.total_incl_vat, b.tax_basis, b.limit_applied, note_views(b.notes@)),
                ),
                None => true,
            },
    {
        if tariffs.len() == 0 {
            return Err(PricingError::NoTariff);
        }
        let mut notes: Vec<PricingNote> = Vec::new();
        let mut segments: Vec<Segment> = Vec::new();
        let mut charged = false;
        match check_range(session, tariffs) {
            Ok(()) => {},
            Err(e) => return Err(e),
        }
        if let Some(at) = session.first_out_of_order() {
            let message = "this Charging Period does not start after the one before it; `step_size` and every duration-based restriction are evaluated against the order given, which is not a timeline this session could have had".to_owned();
            notes.push(PricingNote { code: PricingNoteCode::PeriodsOutOfOrder, at: Some(at), message });
        }
        let ghost start: PeriodState = (Seq::empty(), out_of_order_notes(*session), false);
        proof {
            assert(segment_views(segments@) =~= Seq::<SegmentView>::empty());
            assert(note_views(notes@) =~= out_of_order_notes(*session));
        }
        let n = session.periods.len();
        let mut i: usize = 0;
        while i < n
            invariant
                i <= n,
                n == session.periods@.len(),
                checked_total(energies(session.periods@)) is Some,
                tariffs@.len() > 0,
                first_beyond(range_checks(*session, tariffs@)) is None,
                start == (Seq::<SegmentView>::empty(), out_of_order_notes(*session), false),
                periods_priced(*session, tariffs@, i as int, start) == Ok::<PeriodState, FailureView>(
                    (segment_views(segments@), note_views(notes@), charged),
                ),
            decreases n - i,
        {
            match price_period(session, i, tariffs, &mut segments, &mut notes, &mut charged) {
                Ok(()) => {},
                Err(e) => {
                    proof {
                        lemma_failure_stays(*session, tariffs@, i as int + 1, n as int, start);
                    }
                    return Err(e);
                },
            }
            i = i + 1;
        }
        let dimensions = self.quantise_and_cost(segments, &mut notes);
        let k = match select_by_preference(session, session.start, tariffs) {
            Ok(k) => k,
            Err(e) => return Err(e),
        };
        Ok(self.finish(dimensions, &tariffs[k], notes))
    }
}


/// How many of `segs` are flat fees.
pub open spec fn flat_count(segs: Seq<SegmentView>) -> nat
    decreases segs.len(),
{
    if segs.len() == 0 {
        0
    } else {
        flat_count(segs.drop_last()) + if segs.last().0 == TariffDimensionType::Flat {
            1nat
        } else {
            0nat
        }
    }
}

/// Pricing the quantities of a period adds no flat fee.
proof fn lemma_quantities_add_no_flat(
    t: Tariff,
    start: DateTime,
    c: RestrictionContext,
    end: Option<RestrictionContext>,
    qs: Seq<(TariffDimensionType, Number, bool)>,
    n: int,
    acc: (Seq<SegmentView>, Seq<NoteView>),
)
    requires
        0 <= n <= qs.len(),
        forall|i: int| 0 <= i < qs.len() ==> (#[trigger] qs[i]).0 != TariffDimensionType::Flat,
    ensures
        flat_count(quantities_priced(t, start, c, end, qs, n, acc).0) == flat_count(acc.0),
    decreases n,
{
    if n > 0 {
        lemma_quantities_add_no_flat(t, start, c, end, qs, n - 1, acc);
        let before = quantities_priced(t, start, c, end, qs, n - 1, acc);
        let after = quantity_priced(t, start, c, end, qs[n - 1], before);
        if after.0.len() != before.0.len() {
            assert(after.0.drop_last() =~= before.0);
        }
    }
}

/// The flat fee is charged once per session: however many periods are priced, their stretches
/// hold at most one flat fee, and there is one exactly when pricing says it has been charged.
pub proof fn lemma_flat_fee_charged_once(s: PricedSession, ts: Seq<Tariff>, n: int, notes: Seq<NoteView>)
    ensures
        periods_priced(s, ts, n, (Seq::empty(), notes, false)) matches Ok((segs, _, charged)) ==> flat_count(segs)
            <= 1 && (charged <==> flat_count(segs) == 1),
    decreases n,
{
    if n > 0 {
        lemma_flat_fee_charged_once(s, ts, n - 1, notes);
        let st0: PeriodState = (Seq::empty(), notes, false);
        match periods_priced(s, ts, n - 1, st0) {
            Err(_) => {},
            Ok(done) => {
                reveal(period_step);
                let p = s.periods@[n - 1];
                match selected_tariff(s, p, ts) {
                    Err(_) => {},
                    Ok(k) => match start_context(s, n - 1) {
                        Err(_) => {},
                        Ok(c) => match end_context(s, n - 1) {
                            Err(_) => {},
                            Ok(ec) => {
                                let t = ts[k];
                                let qs = period_quantities(p);
                                assert forall|i: int| 0 <= i < qs.len() implies (#[trigger] qs[i]).0
                                    != TariffDimensionType::Flat by {}
                                lemma_quantities_add_no_flat(t, p.start, c, ec, qs, 4, (done.0, done.1));
                                let q = quantities_priced(t, p.start, c, ec, qs, 4, (done.0, done.1));
                                let fl = flat_priced(t, p, c, q.0, done.2);
                                if fl.0.len() != q.0.len() {
                                    assert(fl.0.drop_last() =~= q.0);
                                }
                            },
                        },
                    },
                }
            },
        }
    }
}

} // verus!
