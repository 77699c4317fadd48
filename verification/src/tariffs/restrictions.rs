//! Which Tariff Element prices a dimension at a given moment of a session: the first element
//! whose restrictions all match and that has a Price Component for the dimension.
//!
//! Restrictions are a logical AND: every one that is set must match. Start bounds are
//! inclusive, end bounds exclusive; a time window whose end is before its start wraps past
//! midnight. An element with a `reservation` restriction prices reserved time only, and one
//! without prices consumed time only.

use vstd::prelude::*;

use crate::strings::{push_signed_padded, push_str, signed_padded};
use crate::types::datetime::{DateTime, civil_of_unix, iso_weekday_of};
use crate::types::local::{LocalDate, LocalTime, hh_mm, within_window, ymd_text};
use crate::types::number::{Number, checked_total_prefix, decimal_checked_sum, decimal_text, numeric_lt};

use super::input::{PricedPeriod, PricedSession, either, energies};
use super::model::iso_day;
use super::zone::PricingError;

use super::lint::{claims, first_claimant, is_empty_restrictions, is_unrestricted, prices_within};
use super::model::{
    DayOfWeek, ReservationRestrictionType, Tariff, TariffDimensionType, TariffElement, TariffRestrictions,
    day_wire,
};

verus! {

/// Everything a restriction is evaluated against, at one moment of one session.
#[derive(Clone, Copy, Debug)]
pub struct RestrictionContext {
    /// The local time of day at the Location.
    pub local_time: LocalTime,
    /// The local date at the Location.
    pub local_date: LocalDate,
    /// The local day of the week.
    pub weekday: DayOfWeek,
    /// The energy the session had consumed, in kWh.
    pub energy_so_far: Number,
    /// How long the session had run, in seconds.
    pub duration_so_far_seconds: i64,
    /// The current a minimum-current restriction compares against, when known.
    pub current_lower: Option<Number>,
    /// The current a maximum-current restriction compares against, when known.
    pub current_upper: Option<Number>,
    /// The power a minimum-power restriction compares against, when known.
    pub power_lower: Option<Number>,
    /// The power a maximum-power restriction compares against, when known.
    pub power_upper: Option<Number>,
    /// Whether reserved time is being priced rather than consumed time.
    pub is_reservation: bool,
    /// Whether the reservation expired unused.
    pub reservation_expired: bool,
}

/// How a context is described in a breakdown: what is being priced, the local date, time and
/// day, and how far into the session.
pub open spec fn context_text(c: RestrictionContext) -> Seq<char> {
    (if c.is_reservation {
        "pricing reserved time "@
    } else {
        Seq::empty()
    }) + "at "@ + ymd_text(
        c.local_date.spec_year() as int,
        c.local_date.spec_month() as nat,
        c.local_date.spec_day() as nat,
    ) + " "@ + hh_mm(c.local_time.spec_hour() as nat, c.local_time.spec_minute() as nat) + " local ("@
        + day_wire(c.weekday) + "), "@ + decimal_text(c.energy_so_far.spec_mantissa(), c.energy_so_far.spec_scale())
        + " kWh and "@ + signed_padded(c.duration_so_far_seconds as int, 1) + "s into the session"@
}

impl RestrictionContext {
    /// The context in words, as a breakdown gives the reason an element was selected.
    pub fn describe(&self) -> (s: String)
        ensures
            s@ == context_text(*self),
    {
        let mut s = String::new();
        if self.is_reservation {
            push_str(&mut s, "pricing reserved time ");
        }
        push_str(&mut s, "at ");
        let date = self.local_date.to_string();
        push_str(&mut s, date.as_str());
        push_str(&mut s, " ");
        let time = self.local_time.to_string();
        push_str(&mut s, time.as_str());
        push_str(&mut s, " local (");
        push_str(&mut s, self.weekday.as_str());
        push_str(&mut s, "), ");
        let energy = self.energy_so_far.to_string();
        push_str(&mut s, energy.as_str());
        push_str(&mut s, " kWh and ");
        push_signed_padded(&mut s, self.duration_so_far_seconds, 1);
        push_str(&mut s, "s into the session");
        assert(s@ =~= context_text(*self));
        s
    }
}

/// A duration bound in seconds, as a signed count: bounds beyond the range are the largest one.
pub open spec fn duration_bound(value: u64) -> int {
    if value <= i64::MAX {
        value as int
    } else {
        i64::MAX as int
    }
}

/// Whether the reservation restriction, or its absence, matches.
pub open spec fn reservation_matches(r: Option<ReservationRestrictionType>, c: RestrictionContext) -> bool {
    match r {
        Some(ReservationRestrictionType::Reservation) => c.is_reservation && !c.reservation_expired,
        Some(ReservationRestrictionType::ReservationExpires) => c.is_reservation && c.reservation_expired,
        None => !c.is_reservation,
    }
}

/// Whether the time-of-day restrictions match.
pub open spec fn time_matches(start: Option<LocalTime>, end: Option<LocalTime>, t: LocalTime) -> bool {
    match (start, end) {
        (Some(s), Some(e)) => within_window(t.spec_minutes(), s.spec_minutes(), e.spec_minutes()),
        (Some(s), None) => s.spec_minutes() <= t.spec_minutes(),
        (None, Some(e)) => t.spec_minutes() < e.spec_minutes(),
        (None, None) => true,
    }
}

/// Whether a value meets an inclusive lower bound, when the bound is set; an unknown value meets
/// no bound.
pub open spec fn meets_lower(bound: Option<Number>, value: Option<Number>) -> bool {
    match bound {
        Some(b) => value matches Some(v) && !numeric_lt(v, b),
        None => true,
    }
}

/// Whether a value stays below an exclusive upper bound, when the bound is set; an unknown value
/// stays below no bound.
pub open spec fn below_upper(bound: Option<Number>, value: Option<Number>) -> bool {
    match bound {
        Some(b) => value matches Some(v) && numeric_lt(v, b),
        None => true,
    }
}

/// Whether every restriction that is set matches the context.
pub open spec fn restriction_matches(r: TariffRestrictions, c: RestrictionContext) -> bool {
    &&& reservation_matches(r.reservation, c)
    &&& time_matches(r.start_time, r.end_time, c.local_time)
    &&& (r.start_date matches Some(d) ==> !c.local_date.spec_before(d))
    &&& (r.end_date matches Some(d) ==> c.local_date.spec_before(d))
    &&& (r.min_kwh matches Some(m) ==> !numeric_lt(c.energy_so_far, m))
    &&& (r.max_kwh matches Some(m) ==> numeric_lt(c.energy_so_far, m))
    &&& meets_lower(r.min_current, c.current_lower)
    &&& below_upper(r.max_current, c.current_upper)
    &&& meets_lower(r.min_power, c.power_lower)
    &&& below_upper(r.max_power, c.power_upper)
    &&& (r.min_duration matches Some(m) ==> c.duration_so_far_seconds >= duration_bound(m))
    &&& (r.max_duration matches Some(m) ==> c.duration_so_far_seconds < duration_bound(m))
    &&& (r.day_of_week@.len() == 0 || r.day_of_week@.contains(c.weekday))
}

/// Whether an element applies in the context: its restrictions match, or, without restrictions,
/// consumed time rather than reserved time is being priced.
pub open spec fn element_matches(el: TariffElement, c: RestrictionContext) -> bool {
    match el.restrictions {
        Some(r) => restriction_matches(r, c),
        None => !c.is_reservation,
    }
}

/// The first of the first `count` components of an element that prices `d`.
pub open spec fn first_component(el: TariffElement, count: int, d: TariffDimensionType) -> Option<int>
    decreases count,
{
    if count <= 0 {
        None
    } else {
        match first_component(el, count - 1, d) {
            Some(k) => Some(k),
            None => if el.price_components@[count - 1].component_type == d {
                Some(count - 1)
            } else {
                None
            },
        }
    }
}

/// The element and component that price `d` among the first `count` elements: the first
/// element that applies and has a component for `d`, and its first such component.
pub open spec fn selected_component(
    t: Tariff,
    count: int,
    d: TariffDimensionType,
    c: RestrictionContext,
) -> Option<(int, int)>
    decreases count,
{
    if count <= 0 {
        None
    } else {
        match selected_component(t, count - 1, d, c) {
            Some(found) => Some(found),
            None => {
                let el = t.elements@[count - 1];
                if element_matches(el, c) {
                    match first_component(el, el.price_components@.len() as int, d) {
                        Some(k) => Some((count - 1, k)),
                        None => None,
                    }
                } else {
                    None
                }
            },
        }
    }
}

/// Whether a minute of the day is in the window `[start, end)`.
fn in_time_window(start: Option<LocalTime>, end: Option<LocalTime>, t: LocalTime) -> (b: bool)
    ensures
        b == time_matches(start, end, t),
{
    match (start, end) {
        (Some(s), Some(e)) => t.is_within(s, e),
        (Some(s), None) => s.minutes_since_midnight() <= t.minutes_since_midnight(),
        (None, Some(e)) => t.minutes_since_midnight() < e.minutes_since_midnight(),
        (None, None) => true,
    }
}

/// A duration bound as a signed count of seconds.
fn duration_bound_of(value: u64) -> (r: i64)
    ensures
        r == duration_bound(value),
{
    if value <= i64::MAX as u64 {
        value as i64
    } else {
        i64::MAX
    }
}

/// Whether `days` names `day`.
fn names_day(days: &Vec<DayOfWeek>, day: DayOfWeek) -> (b: bool)
    ensures
        b == days@.contains(day),
{
    let mut i: usize = 0;
    while i < days.len()
        invariant
            i <= days@.len(),
            forall|j: int| 0 <= j < i ==> days@[j] != day,
        decreases days@.len() - i,
    {
        if days[i] == day {
            return true;
        }
        i = i + 1;
    }
    false
}

/// Whether every restriction that is set matches: *"they are to be treated as a logical AND"*.
pub fn matches(r: &TariffRestrictions, context: &RestrictionContext) -> (b: bool)
    ensures
        b == restriction_matches(*r, *context),
{
    match r.reservation {
        Some(ReservationRestrictionType::Reservation) => {
            if !context.is_reservation || context.reservation_expired {
                return false;
            }
        },
        Some(ReservationRestrictionType::ReservationExpires) => {
            if !context.is_reservation || !context.reservation_expired {
                return false;
            }
        },
        None => {
            if context.is_reservation {
                return false;
            }
        },
    }
    if !in_time_window(r.start_time, r.end_time, context.local_time) {
        return false;
    }
    if let Some(d) = r.start_date {
        if context.local_date.is_before(d) {
            return false;
        }
    }
    if let Some(d) = r.end_date {
        if !context.local_date.is_before(d) {
            return false;
        }
    }
    if let Some(min) = &r.min_kwh {
        if context.energy_so_far.is_less_than(min) {
            return false;
        }
    }
    if let Some(max) = &r.max_kwh {
        if !context.energy_so_far.is_less_than(max) {
            return false;
        }
    }
    if let Some(min) = &r.min_current {
        match &context.current_lower {
            Some(c) => if c.is_less_than(min) {
                return false;
            },
            None => return false,
        }
    }
    if let Some(max) = &r.max_current {
        match &context.current_upper {
            Some(c) => if !c.is_less_than(max) {
                return false;
            },
            None => return false,
        }
    }
    if let Some(min) = &r.min_power {
        match &context.power_lower {
            Some(p) => if p.is_less_than(min) {
                return false;
            },
            None => return false,
        }
    }
    if let Some(max) = &r.max_power {
        match &context.power_upper {
            Some(p) => if !p.is_less_than(max) {
                return false;
            },
            None => return false,
        }
    }
    if let Some(min) = r.min_duration {
        if context.duration_so_far_seconds < duration_bound_of(min) {
            return false;
        }
    }
    if let Some(max) = r.max_duration {
        if context.duration_so_far_seconds >= duration_bound_of(max) {
            return false;
        }
    }
    if r.day_of_week.len() != 0 && !names_day(&r.day_of_week, context.weekday) {
        return false;
    }
    true
}

/// Whether an element applies: its restrictions match, or, having none, it prices consumed time.
/// An element that is about reservations has to say so with a `reservation` restriction.
pub fn restrictions_match(element: &TariffElement, context: &RestrictionContext) -> (b: bool)
    ensures
        b == element_matches(*element, *context),
{
    match &element.restrictions {
        Some(r) => matches(r, context),
        None => !context.is_reservation,
    }
}

/// The first component of an element that prices `d`.
fn first_component_of(el: &TariffElement, d: TariffDimensionType) -> (r: Option<usize>)
    ensures
        match first_component(*el, el.price_components@.len() as int, d) {
            Some(k) => r == Some(k as usize),
            None => r is None,
        },
        r matches Some(k) ==> k < el.price_components@.len() && first_component(
            *el,
            el.price_components@.len() as int,
            d,
        ) == Some(k as int),
{
    let m = el.price_components.len();
    let mut k: usize = 0;
    while k < m
        invariant
            k <= m,
            m == el.price_components@.len(),
            first_component(*el, k as int, d) is None,
        decreases m - k,
    {
        if el.price_components[k].component_type == d {
            proof {
                lemma_first_component_stays(*el, k + 1, m as int, d);
            }
            return Some(k);
        }
        k = k + 1;
    }
    None
}

/// A first component found stays the first one.
proof fn lemma_first_component_stays(el: TariffElement, a: int, b: int, d: TariffDimensionType)
    requires
        a <= b,
        first_component(el, a, d) is Some,
    ensures
        first_component(el, b, d) == first_component(el, a, d),
    decreases b - a,
{
    if b > a {
        lemma_first_component_stays(el, a, b - 1, d);
    }
}

/// A selection found stays the selection.
proof fn lemma_selected_stays(t: Tariff, a: int, b: int, d: TariffDimensionType, c: RestrictionContext)
    requires
        a <= b,
        selected_component(t, a, d, c) is Some,
    ensures
        selected_component(t, b, d, c) == selected_component(t, a, d, c),
    decreases b - a,
{
    if b > a {
        lemma_selected_stays(t, a, b - 1, d, c);
    }
}

/// The element and component that price `d` in the context: the first Tariff Element whose
/// restrictions match and that has a Price Component for `d`, and its first such component.
pub fn find_component(tariff: &Tariff, dimension: TariffDimensionType, context: &RestrictionContext) -> (r:
    Option<(usize, usize)>)
    ensures
        match selected_component(*tariff, tariff.elements@.len() as int, dimension, *context) {
            Some((e, k)) => r == Some((e as usize, k as usize)),
            None => r is None,
        },
        r matches Some((e, k)) ==> e < tariff.elements@.len() && k < tariff.elements@[e as int].price_components@.len()
            && selected_component(*tariff, tariff.elements@.len() as int, dimension, *context) == Some(
            (e as int, k as int),
        ),
{
    let n = tariff.elements.len();
    let mut e: usize = 0;
    while e < n
        invariant
            e <= n,
            n == tariff.elements@.len(),
            selected_component(*tariff, e as int, dimension, *context) is None,
        decreases n - e,
    {
        let el = &tariff.elements[e];
        if restrictions_match(el, context) {
            match first_component_of(el, dimension) {
                Some(k) => {
                    proof {
                        lemma_selected_stays(*tariff, e + 1, n as int, dimension, *context);
                    }
                    return Some((e, k));
                },
                None => {},
            }
        }
        e = e + 1;
    }
    None
}

/// An element that always matches applies to every moment at which consumed time is priced.
proof fn lemma_unrestricted_matches(el: TariffElement, c: RestrictionContext)
    requires
        is_unrestricted(el),
        !c.is_reservation,
    ensures
        element_matches(el, c),
{
    match el.restrictions {
        Some(r) => {
            assert(is_empty_restrictions(r));
            assert(r.day_of_week@.len() == 0);
        },
        None => {},
    }
}

/// An element that prices `d` has a first component for it.
proof fn lemma_prices_has_first(el: TariffElement, count: int, d: TariffDimensionType)
    requires
        0 <= count <= el.price_components@.len(),
        prices_within(el, count, d),
    ensures
        first_component(el, count, d) is Some,
    decreases count,
{
    if count > 0 && !prices_within(el, count - 1, d) {
        let k = choose|k: int| 0 <= k < count && #[trigger] el.price_components@[k].component_type == d;
        assert(k == count - 1);
    } else if count > 0 {
        lemma_prices_has_first(el, count - 1, d);
    }
}

/// The lint for an unreachable element is sound for consumed time: once an element that always
/// matches prices `d`, every moment of charging, parking or energy use is priced for `d` by that
/// element or one before it, so no later element's Price Component for `d` ever applies.
pub proof fn lemma_claimed_dimension_is_priced_no_later(
    t: Tariff,
    e: int,
    d: TariffDimensionType,
    c: RestrictionContext,
)
    requires
        0 <= e <= t.elements@.len(),
        first_claimant(t, e, d) is Some,
        !c.is_reservation,
    ensures
        selected_component(t, t.elements@.len() as int, d, c) matches Some((s, k)) && s
            <= first_claimant(t, e, d)->0,
    decreases e,
{
    let f = first_claimant(t, e, d)->0;
    if first_claimant(t, e - 1, d) is Some {
        lemma_claimed_dimension_is_priced_no_later(t, e - 1, d, c);
    } else {
        assert(f == e - 1);
        assert(claims(t, f, d));
        let el = t.elements@[f];
        lemma_unrestricted_matches(el, c);
        lemma_prices_has_first(el, el.price_components@.len() as int, d);
        lemma_selected_before(t, f, d, c);
        lemma_selected_stays(t, f + 1, t.elements@.len() as int, d, c);
    }
}

/// When element `f` applies and prices `d`, something at or before `f` is selected.
proof fn lemma_selected_before(t: Tariff, f: int, d: TariffDimensionType, c: RestrictionContext)
    requires
        0 <= f < t.elements@.len(),
        element_matches(t.elements@[f], c),
        first_component(t.elements@[f], t.elements@[f].price_components@.len() as int, d) is Some,
    ensures
        selected_component(t, f + 1, d, c) matches Some((s, k)) && s <= f,
{
    if selected_component(t, f, d, c) is Some {
        lemma_selected_bounded(t, f, d, c);
    }
}

/// A selection among the first `count` elements is one of them.
proof fn lemma_selected_bounded(t: Tariff, count: int, d: TariffDimensionType, c: RestrictionContext)
    ensures
        selected_component(t, count, d, c) matches Some((s, k)) ==> 0 <= s < count,
    decreases count,
{
    if count > 0 {
        lemma_selected_bounded(t, count - 1, d, c);
    }
}

/// Whether the local date, time of day and weekday of `c` are those of the wall-clock reading
/// `d`: its calendar date, its hour and minute, and the weekday it falls on.
pub open spec fn reads_local(c: RestrictionContext, d: DateTime) -> bool {
    let civil = civil_of_unix(d.spec_unix());
    &&& c.local_date.spec_year() == civil.0
    &&& c.local_date.spec_month() == civil.1
    &&& c.local_date.spec_day() == civil.2
    &&& c.local_time.spec_hour() == civil.3
    &&& c.local_time.spec_minute() == civil.4
    &&& Some(c.weekday) == iso_day(iso_weekday_of(d.spec_unix()))
}

/// The context for `period` of `session` at the wall-clock reading `local` (a Unix time), with
/// `energy` and `duration` seconds consumed so far: the local date, time and weekday of the
/// reading, the period's current and power, and consumed (not reserved) time.
pub open spec fn context_reading(
    session: PricedSession,
    period: PricedPeriod,
    local: int,
    energy: Number,
    duration: int,
) -> RestrictionContext {
    let civil = civil_of_unix(local);
    RestrictionContext {
        local_time: LocalTime::spec_at(civil.3 as u8, civil.4 as u8),
        local_date: LocalDate::spec_on(civil.0 as i32, civil.1 as u8, civil.2 as u8),
        weekday: iso_day(iso_weekday_of(local))->Some_0,
        energy_so_far: energy,
        duration_so_far_seconds: duration as i64,
        current_lower: either(period.max_current_a, period.min_current_a),
        current_upper: either(period.min_current_a, period.max_current_a),
        power_lower: either(period.max_power_kw, period.min_power_kw),
        power_upper: either(period.min_power_kw, period.max_power_kw),
        is_reservation: false,
        reservation_expired: session.reservation_expired,
    }
}

/// A context that reads `d` and describes `period` is the one [`context_reading`] gives.
proof fn lemma_context_is_reading(
    c: RestrictionContext,
    d: DateTime,
    session: PricedSession,
    period: PricedPeriod,
)
    requires
        reads_local(c, d),
        describes_period(c, session, period),
        !c.is_reservation,
    ensures
        c == context_reading(session, period, d.spec_unix(), c.energy_so_far, c.duration_so_far_seconds as int),
{
    c.local_time.lemma_at();
    c.local_date.lemma_on();
}

/// The index of `index` clamped to the number of periods: how many periods come before it.
pub open spec fn periods_before(session: PricedSession, index: int) -> int {
    if index < session.periods@.len() {
        index
    } else {
        session.periods@.len() as int
    }
}

/// Whether the consumption fields of `c` are those of `period` in `session`, as a context for
/// consumed time.
pub open spec fn describes_period(c: RestrictionContext, session: PricedSession, period: PricedPeriod) -> bool {
    &&& c.current_lower == either(period.max_current_a, period.min_current_a)
    &&& c.current_upper == either(period.min_current_a, period.max_current_a)
    &&& c.power_lower == either(period.max_power_kw, period.min_power_kw)
    &&& c.power_upper == either(period.min_power_kw, period.max_power_kw)
    &&& !c.is_reservation
    &&& c.reservation_expired == session.reservation_expired
}

impl RestrictionContext {
    /// The local date, time of day and weekday of a wall-clock reading.
    fn local_parts(local: DateTime) -> (r: (LocalDate, LocalTime, DayOfWeek))
        ensures
            ({
                let civil = civil_of_unix(local.spec_unix());
                &&& r.0.spec_year() == civil.0 && r.0.spec_month() == civil.1 && r.0.spec_day() == civil.2
                &&& r.1.spec_hour() == civil.3 && r.1.spec_minute() == civil.4
                &&& Some(r.2) == iso_day(iso_weekday_of(local.spec_unix()))
            }),
    {
        let (year, month, day, hour, minute, _second) = local.civil();
        let date = match LocalDate::new(year, month, day) {
            Ok(d) => d,
            Err(_) => {
                proof {
                    assert(false);
                }
                LocalDate::new(1970, 1, 1).unwrap()
            },
        };
        let time = match LocalTime::new(hour, minute) {
            Ok(t) => t,
            Err(_) => {
                proof {
                    assert(false);
                }
                LocalTime::midnight()
            },
        };
        let weekday = match DayOfWeek::from_iso_number(local.iso_weekday()) {
            Some(w) => w,
            None => DayOfWeek::Monday,
        };
        (date, time, weekday)
    }

    /// The context at the start of period `index` of `session`: the local date, time and day at
    /// the Location, the energy and time consumed before it, and the period's current and
    /// power. An error where the Location's time zone cannot give the local time.
    pub fn build(session: &PricedSession, index: usize, period: &PricedPeriod) -> (r: Result<Self, PricingError>)
        requires
            checked_total_prefix(energies(session.periods@), periods_before(*session, index as int)) is Some,
        ensures
            r matches Ok(c) ==> {
                &&& exists|d: DateTime| #[trigger] reads_local(c, d) && (session.time_zone.spec_is_utc() ==> d.spec_unix()
                    == period.start.spec_unix())
                &&& Some(c.energy_so_far) == checked_total_prefix(
                    energies(session.periods@),
                    periods_before(*session, index as int),
                )
                &&& c.duration_so_far_seconds == if index < session.periods@.len() {
                    session.periods@[index as int].start.spec_unix() - session.start.spec_unix()
                } else {
                    0
                }
                &&& describes_period(c, *session, *period)
            },
            r matches Err(e) ==> e is TimeZone,
            match session.time_zone.local_reading(period.start.spec_unix()) {
                Ok(u) => r matches Ok(c) && exists|d: DateTime| #[trigger] reads_local(c, d) && d.spec_unix() == u,
                Err(m) => r matches Err(PricingError::TimeZone(t)) && t@ == m,
            },
            r matches Ok(c) ==> session.time_zone.local_reading(period.start.spec_unix()) matches Ok(u)
                && c == context_reading(*session, *period, u, c.energy_so_far, c.duration_so_far_seconds as int),
    {
        let local = match session.time_zone.to_local(period.start) {
            Ok(l) => l,
            Err(e) => return Err(e),
        };
        let (local_date, local_time, weekday) = Self::local_parts(local);
        let c = RestrictionContext {
            local_time,
            local_date,
            weekday,
            energy_so_far: session.energy_before(index),
            duration_so_far_seconds: session.duration_before(index),
            current_lower: period.current_for_lower_bound(),
            current_upper: period.current_for_upper_bound(),
            power_lower: period.power_for_lower_bound(),
            power_upper: period.power_for_upper_bound(),
            is_reservation: false,
            reservation_expired: session.reservation_expired,
        };
        proof {
            assert(reads_local(c, local));
            lemma_context_is_reading(c, local, *session, *period);
        }
        Ok(c)
    }

    /// The context at the last second period `index` covers, or `None` when the period has no
    /// known end or lasts a second or less: by then everything the period consumed has been
    /// consumed. An error where the Location's time zone cannot give the local time.
    pub fn build_at_end(session: &PricedSession, index: usize, period: &PricedPeriod) -> (r: Result<Option<Self>, PricingError>)
        requires
            index < usize::MAX,
            checked_total_prefix(energies(session.periods@), periods_before(*session, index as int)) is Some,
            decimal_checked_sum(
                checked_total_prefix(energies(session.periods@), periods_before(*session, index as int))->Some_0,
                period.energy_kwh,
            ) is Some,
        ensures
            ({
                let end = if index + 1 < session.periods@.len() {
                    Some(session.periods@[index + 1].start)
                } else {
                    session.end
                };
                match end {
                    None => r == Ok::<Option<RestrictionContext>, PricingError>(None),
                    Some(e) => {
                        let last = e.spec_unix() - 1;
                        if !crate::types::datetime::in_unix_range(last) || last * 1_000_000_000 <= period.start.instant() {
                            r == Ok::<Option<RestrictionContext>, PricingError>(None)
                        } else {
                            &&& r matches Ok(Some(c)) ==> {
                                &&& exists|d: DateTime| #[trigger] reads_local(c, d) && (session.time_zone.spec_is_utc()
                                    ==> d.spec_unix() == last)
                                &&& Some(c.energy_so_far) == decimal_checked_sum(
                                    checked_total_prefix(
                                        energies(session.periods@),
                                        periods_before(*session, index as int),
                                    )->Some_0,
                                    period.energy_kwh,
                                )
                                &&& c.duration_so_far_seconds == last - session.start.spec_unix()
                                &&& describes_period(c, *session, *period)
                            }
                            &&& r matches Ok(x) ==> x is Some
                            &&& r matches Err(err) ==> err is TimeZone
                            &&& match session.time_zone.local_reading(last) {
                                Ok(u) => r matches Ok(Some(c)) && exists|d: DateTime| #[trigger] reads_local(c, d)
                                    && d.spec_unix() == u,
                                Err(m) => r matches Err(PricingError::TimeZone(t)) && t@ == m,
                            }
                            &&& r matches Ok(Some(c)) ==> session.time_zone.local_reading(last) matches Ok(u)
                                && c == context_reading(
                                *session,
                                *period,
                                u,
                                c.energy_so_far,
                                c.duration_so_far_seconds as int,
                            )
                        }
                    },
                }
            }),
    {
        let end = match session.period_end(index) {
            Some(e) => e,
            None => return Ok(None),
        };
        let end_unix = end.unix_timestamp();
        let last_instant = match DateTime::from_unix_timestamp(end_unix - 1) {
            Ok(d) => d,
            Err(_) => return Ok(None),
        };
        if !period.start.is_before(&last_instant) {
            return Ok(None);
        }
        let local = match session.time_zone.to_local(last_instant) {
            Ok(l) => l,
            Err(e) => return Err(e),
        };
        let (local_date, local_time, weekday) = Self::local_parts(local);
        let before = session.energy_before(index);
        let start_unix = session.start.unix_timestamp();
        let c = RestrictionContext {
            local_time,
            local_date,
            weekday,
            energy_so_far: before + period.energy_kwh,
            duration_so_far_seconds: last_instant.unix_timestamp() - start_unix,
            current_lower: period.current_for_lower_bound(),
            current_upper: period.current_for_upper_bound(),
            power_lower: period.power_for_lower_bound(),
            power_upper: period.power_for_upper_bound(),
            is_reservation: false,
            reservation_expired: session.reservation_expired,
        };
        proof {
            assert(reads_local(c, local));
            lemma_context_is_reading(c, local, *session, *period);
        }
        Ok(Some(c))
    }

    /// This context, viewed as pricing reserved time or consumed time.
    pub fn reserving(&self, is_reservation: bool) -> (c: Self)
        ensures
            c == (RestrictionContext { is_reservation, ..*self }),
    {
        RestrictionContext { is_reservation, ..*self }
    }
}


/// Whether day `a` comes before day `b` in the calendar: an earlier year, or the same year and an
/// earlier month, or the same month and an earlier day.
pub open spec fn calendar_before(a: LocalDate, b: LocalDate) -> bool {
    a.spec_year() < b.spec_year() || (a.spec_year() == b.spec_year() && (a.spec_month() < b.spec_month() || (
    a.spec_month() == b.spec_month() && a.spec_day() < b.spec_day())))
}

/// The validity dates of an element bound the days it applies on: `start_date` is the first day
/// it applies, inclusive, and `end_date` the first day it no longer applies, exclusive. Setting
/// either keeps exactly the contexts whose local day lies on the right side of it, and changes
/// nothing else.
pub proof fn lemma_date_restrictions_bound_the_days(r: TariffRestrictions, c: RestrictionContext, d: LocalDate)
    ensures
        restriction_matches(TariffRestrictions { end_date: Some(d), ..r }, c) <==> (restriction_matches(
            TariffRestrictions { end_date: None, ..r },
            c,
        ) && calendar_before(c.local_date, d)),
        restriction_matches(TariffRestrictions { start_date: Some(d), ..r }, c) <==> (restriction_matches(
            TariffRestrictions { start_date: None, ..r },
            c,
        ) && !calendar_before(c.local_date, d)),
{
}


/// Each bound an element sets keeps exactly the contexts on its side and changes nothing else:
/// `min_kwh` is inclusive and `max_kwh` exclusive on the energy consumed so far, the duration
/// bounds likewise on the seconds into the session, and the power and current bounds on the
/// values measured, which must then be known.
pub proof fn lemma_bounds_keep_their_side(r: TariffRestrictions, c: RestrictionContext, m: Number, n: u64)
    ensures
        restriction_matches(TariffRestrictions { min_kwh: Some(m), ..r }, c) <==> (restriction_matches(
            TariffRestrictions { min_kwh: None, ..r },
            c,
        ) && !numeric_lt(c.energy_so_far, m)),
        restriction_matches(TariffRestrictions { max_kwh: Some(m), ..r }, c) <==> (restriction_matches(
            TariffRestrictions { max_kwh: None, ..r },
            c,
        ) && numeric_lt(c.energy_so_far, m)),
        n <= i64::MAX ==> (restriction_matches(TariffRestrictions { min_duration: Some(n), ..r }, c) <==> (
        restriction_matches(TariffRestrictions { min_duration: None, ..r }, c) && c.duration_so_far_seconds >= n)),
        n <= i64::MAX ==> (restriction_matches(TariffRestrictions { max_duration: Some(n), ..r }, c) <==> (
        restriction_matches(TariffRestrictions { max_duration: None, ..r }, c) && c.duration_so_far_seconds < n)),
        restriction_matches(TariffRestrictions { min_power: Some(m), ..r }, c) <==> (restriction_matches(
            TariffRestrictions { min_power: None, ..r },
            c,
        ) && c.power_lower is Some && !numeric_lt(c.power_lower->Some_0, m)),
        restriction_matches(TariffRestrictions { max_power: Some(m), ..r }, c) <==> (restriction_matches(
            TariffRestrictions { max_power: None, ..r },
            c,
        ) && c.power_upper is Some && numeric_lt(c.power_upper->Some_0, m)),
        restriction_matches(TariffRestrictions { min_current: Some(m), ..r }, c) <==> (restriction_matches(
            TariffRestrictions { min_current: None, ..r },
            c,
        ) && c.current_lower is Some && !numeric_lt(c.current_lower->Some_0, m)),
        restriction_matches(TariffRestrictions { max_current: Some(m), ..r }, c) <==> (restriction_matches(
            TariffRestrictions { max_current: None, ..r },
            c,
        ) && c.current_upper is Some && numeric_lt(c.current_upper->Some_0, m)),
{
}

/// Reserved time and consumed time are priced by different elements: one restricted to
/// reservations applies only while pricing reserved time (of a reservation that did not expire,
/// or of one that did, by its kind), and one without that restriction only while pricing
/// consumed time. Days of the week, when listed, admit only those days.
pub proof fn lemma_reservation_and_days(r: TariffRestrictions, c: RestrictionContext)
    ensures
        restriction_matches(r, c) ==> match r.reservation {
            Some(ReservationRestrictionType::Reservation) => c.is_reservation && !c.reservation_expired,
            Some(ReservationRestrictionType::ReservationExpires) => c.is_reservation && c.reservation_expired,
            None => !c.is_reservation,
        },
        restriction_matches(r, c) && r.day_of_week@.len() > 0 ==> r.day_of_week@.contains(c.weekday),
{
}

/// A time window from `start_time` until `end_time` holds the times from its start, inclusive,
/// to its end, exclusive; one whose end comes before its start wraps past midnight; and with
/// only one end set, the other is open.
pub proof fn lemma_time_window(r: TariffRestrictions, c: RestrictionContext, s: LocalTime, e: LocalTime)
    ensures
        ({
            let t = c.local_time.spec_minutes();
            let a = s.spec_minutes();
            let z = e.spec_minutes();
            let open = TariffRestrictions { start_time: None, end_time: None, ..r };
            &&& a < z ==> (restriction_matches(TariffRestrictions { start_time: Some(s), end_time: Some(e), ..r }, c)
                <==> (restriction_matches(open, c) && a <= t && t < z))
            &&& z < a ==> (restriction_matches(TariffRestrictions { start_time: Some(s), end_time: Some(e), ..r }, c)
                <==> (restriction_matches(open, c) && (t >= a || t < z)))
            &&& restriction_matches(TariffRestrictions { start_time: Some(s), end_time: None, ..r }, c) <==> (
            restriction_matches(open, c) && a <= t)
            &&& restriction_matches(TariffRestrictions { start_time: None, end_time: Some(e), ..r }, c) <==> (
            restriction_matches(open, c) && t < z)
        }),
{
}

} // verus!
