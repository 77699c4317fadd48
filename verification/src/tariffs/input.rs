//! One charging period, reduced to what pricing needs, and the values its restrictions are
//! evaluated against.

use vstd::prelude::*;

use crate::tariffs::breakdown::lemma_prefix_defined;
use crate::tariffs::zone::TimeZone;
use crate::types::datetime::DateTime;
use crate::types::number::{checked_total, checked_total_prefix, Number};

verus! {

/// One charging period, reduced to what pricing needs.
#[derive(Clone, Debug, PartialEq)]
pub struct PricedPeriod {
    /// Start of the period. The period ends when the next one starts.
    pub start: DateTime,
    /// Energy charged during this period, in kWh.
    pub energy_kwh: Number,
    /// Time spent charging during this period, in hours.
    pub charging_hours: Number,
    /// Time spent parked and not charging during this period, in hours.
    pub parking_hours: Number,
    /// Time the EVSE was reserved during this period, in hours.
    pub reservation_hours: Number,
    /// The highest current drawn during this period, in A, if measured.
    pub max_current_a: Option<Number>,
    /// The lowest current drawn during this period, in A, if measured.
    pub min_current_a: Option<Number>,
    /// The highest power drawn during this period, in kW, if measured.
    pub max_power_kw: Option<Number>,
    /// The lowest power drawn during this period, in kW, if measured.
    pub min_power_kw: Option<Number>,
    /// The Tariff that applies to this period, when the CPO said which one.
    pub tariff_id: Option<String>,
}

/// The first of two optional values that is present.
pub open spec fn either(first: Option<Number>, second: Option<Number>) -> Option<Number> {
    match first {
        Some(v) => Some(v),
        None => second,
    }
}

impl PricedPeriod {
    /// A period with a start time and nothing consumed.
    pub fn new(start: DateTime) -> (p: Self)
        ensures
            p.start == start,
            p.energy_kwh.spec_mantissa() == 0,
            p.charging_hours.spec_mantissa() == 0,
            p.parking_hours.spec_mantissa() == 0,
            p.reservation_hours.spec_mantissa() == 0,
            p.max_current_a is None && p.min_current_a is None,
            p.max_power_kw is None && p.min_power_kw is None,
            p.tariff_id is None,
    {
        PricedPeriod {
            start,
            energy_kwh: Number::zero(),
            charging_hours: Number::zero(),
            parking_hours: Number::zero(),
            reservation_hours: Number::zero(),
            max_current_a: None,
            min_current_a: None,
            max_power_kw: None,
            min_power_kw: None,
            tariff_id: None,
        }
    }

    /// The current a `min_current` restriction is evaluated against: the measured maximum, or
    /// the minimum when only that was measured, so that the restriction holds for the whole
    /// period.
    pub fn current_for_lower_bound(&self) -> (r: Option<Number>)
        ensures
            r == either(self.max_current_a, self.min_current_a),
    {
        match self.max_current_a {
            Some(v) => Some(v),
            None => self.min_current_a,
        }
    }

    /// The current a `max_current` restriction is evaluated against: the measured minimum, or
    /// the maximum when only that was measured.
    pub fn current_for_upper_bound(&self) -> (r: Option<Number>)
        ensures
            r == either(self.min_current_a, self.max_current_a),
    {
        match self.min_current_a {
            Some(v) => Some(v),
            None => self.max_current_a,
        }
    }

    /// The power a `min_power` restriction is evaluated against, in kW.
    pub fn power_for_lower_bound(&self) -> (r: Option<Number>)
        ensures
            r == either(self.max_power_kw, self.min_power_kw),
    {
        match self.max_power_kw {
            Some(v) => Some(v),
            None => self.min_power_kw,
        }
    }

    /// The power a `max_power` restriction is evaluated against, in kW.
    pub fn power_for_upper_bound(&self) -> (r: Option<Number>)
        ensures
            r == either(self.min_power_kw, self.max_power_kw),
    {
        match self.min_power_kw {
            Some(v) => Some(v),
            None => self.max_power_kw,
        }
    }
}

/// The charging preference a driver selected, which decides which `Tariff.type` applies.
#[derive(Clone, Copy, Debug, PartialEq, Eq, Structural)]
pub enum ProfileType {
    /// Charging at the lowest cost.
    Cheap,
    /// Charging as fast as possible.
    Fast,
    /// Charging on green energy.
    Green,
    /// Charging without a preference.
    Regular,
}

/// A session reduced to what pricing needs.
#[derive(Clone, Debug)]
pub struct PricedSession {
    /// When the session started, in UTC.
    pub start: DateTime,
    /// When the session ended, in UTC, if it has.
    pub end: Option<DateTime>,
    /// The charging periods, in order.
    pub periods: Vec<PricedPeriod>,
    /// The time zone of the Location, which the local-time restrictions are expressed in.
    pub time_zone: TimeZone,
    /// The charging preference the driver selected.
    pub profile_type: Option<ProfileType>,
    /// Whether the driver used ad-hoc payment rather than a contract.
    pub ad_hoc_payment: bool,
    /// Whether a reservation that was made expired before charging started.
    pub reservation_expired: bool,
}

/// The energies of `periods`, in order.
pub open spec fn energies(periods: Seq<PricedPeriod>) -> Seq<Number> {
    periods.map_values(|p: PricedPeriod| p.energy_kwh)
}

/// The charging times of `periods`, in order.
pub open spec fn charging_times(periods: Seq<PricedPeriod>) -> Seq<Number> {
    periods.map_values(|p: PricedPeriod| p.charging_hours)
}

/// The parking times of `periods`, in order.
pub open spec fn parking_times(periods: Seq<PricedPeriod>) -> Seq<Number> {
    periods.map_values(|p: PricedPeriod| p.parking_hours)
}

/// The reservation times of `periods`, in order.
pub open spec fn reservation_times(periods: Seq<PricedPeriod>) -> Seq<Number> {
    periods.map_values(|p: PricedPeriod| p.reservation_hours)
}

/// The sum of the first `n` of `values`, or of all of them when there are fewer.
fn total_of_first(values: &Vec<Number>, n: usize) -> (r: Number)
    requires
        checked_total_prefix(values@, if n < values.len() { n as int } else { values.len() as int }) is Some,
    ensures
        Some(r) == checked_total_prefix(values@, if n < values.len() { n as int } else { values.len() as int }),
{
    let upto = if n < values.len() {
        n
    } else {
        values.len()
    };
    let mut sum = Number::zero();
    let mut i: usize = 0;
    while i < upto
        invariant
            i <= upto,
            upto <= values.len(),
            checked_total_prefix(values@, upto as int) is Some,
            Some(sum) == checked_total_prefix(values@, i as int),
        decreases upto - i,
    {
        proof {
            lemma_prefix_defined(values@, i as int + 1, upto as int);
        }
        sum = sum + values[i];
        i = i + 1;
    }
    sum
}

/// Which quantity of a period to add up.
enum Quantity {
    Energy,
    Charging,
    Parking,
    Reservation,
}

/// The chosen quantity of each of `periods`, in order.
fn quantities(periods: &Vec<PricedPeriod>, which: Quantity) -> (r: Vec<Number>)
    ensures
        which is Energy ==> r@ == energies(periods@),
        which is Charging ==> r@ == charging_times(periods@),
        which is Parking ==> r@ == parking_times(periods@),
        which is Reservation ==> r@ == reservation_times(periods@),
{
    let mut out: Vec<Number> = Vec::new();
    let mut i: usize = 0;
    while i < periods.len()
        invariant
            i <= periods.len(),
            which is Energy ==> out@ == energies(periods@.subrange(0, i as int)),
            which is Charging ==> out@ == charging_times(periods@.subrange(0, i as int)),
            which is Parking ==> out@ == parking_times(periods@.subrange(0, i as int)),
            which is Reservation ==> out@ == reservation_times(periods@.subrange(0, i as int)),
        decreases periods.len() - i,
    {
        let p = &periods[i];
        let v = match which {
            Quantity::Energy => p.energy_kwh,
            Quantity::Charging => p.charging_hours,
            Quantity::Parking => p.parking_hours,
            Quantity::Reservation => p.reservation_hours,
        };
        out.push(v);
        proof {
            let q = periods@.subrange(0, i as int + 1);
            assert(q.drop_last() =~= periods@.subrange(0, i as int));
            assert(energies(q) =~= energies(q.drop_last()).push(q.last().energy_kwh));
            assert(charging_times(q) =~= charging_times(q.drop_last()).push(q.last().charging_hours));
            assert(parking_times(q) =~= parking_times(q.drop_last()).push(q.last().parking_hours));
            assert(reservation_times(q) =~= reservation_times(q.drop_last()).push(q.last().reservation_hours));
        }
        i = i + 1;
    }
    proof {
        assert(periods@.subrange(0, periods.len() as int) =~= periods@);
    }
    out
}

/// The first of the first `n` periods that does not start after the one before it.
pub open spec fn out_of_order_at(periods: Seq<PricedPeriod>, n: int) -> Option<int>
    decreases n,
{
    if n <= 1 {
        None
    } else {
        match out_of_order_at(periods, n - 1) {
            Some(i) => Some(i),
            None => if !(periods[n - 2].start.instant() < periods[n - 1].start.instant()) {
                Some(n - 1)
            } else {
                None
            },
        }
    }
}

/// A period out of order among the first `a` is the first one out of order among more.
proof fn lemma_out_of_order_stays(periods: Seq<PricedPeriod>, a: int, b: int)
    requires
        a <= b,
        out_of_order_at(periods, a) is Some,
    ensures
        out_of_order_at(periods, b) == out_of_order_at(periods, a),
    decreases b - a,
{
    if a < b {
        lemma_out_of_order_stays(periods, a, b - 1);
    }
}

impl PricedSession {
    /// A session with no periods and no end, for building up by hand.
    pub fn new(start: DateTime, time_zone: TimeZone) -> (s: Self)
        ensures
            s.start == start,
            s.end is None,
            s.periods@.len() == 0,
            s.time_zone == time_zone,
            s.profile_type is None,
            !s.ad_hoc_payment,
            !s.reservation_expired,
    {
        PricedSession {
            start,
            end: None,
            periods: Vec::new(),
            time_zone,
            profile_type: None,
            ad_hoc_payment: false,
            reservation_expired: false,
        }
    }

    /// This session with `period` added at the end.
    pub fn with_period(self, period: PricedPeriod) -> (s: Self)
        ensures
            s.periods@ == self.periods@.push(period),
            s.start == self.start && s.end == self.end && s.time_zone == self.time_zone,
            s.profile_type == self.profile_type,
            s.ad_hoc_payment == self.ad_hoc_payment && s.reservation_expired == self.reservation_expired,
    {
        let mut s = self;
        s.periods.push(period);
        s
    }

    /// This session, ended at `end`.
    pub fn ending(self, end: DateTime) -> (s: Self)
        ensures
            s.end == Some(end),
            s.periods@ == self.periods@,
            s.start == self.start && s.time_zone == self.time_zone,
            s.profile_type == self.profile_type,
            s.ad_hoc_payment == self.ad_hoc_payment && s.reservation_expired == self.reservation_expired,
    {
        let mut s = self;
        s.end = Some(end);
        s
    }

    /// The total energy across all periods, in kWh.
    pub fn total_energy_kwh(&self) -> (r: Number)
        requires
            checked_total(energies(self.periods@)) is Some,
        ensures
            Some(r) == checked_total(energies(self.periods@)),
    {
        let v = quantities(&self.periods, Quantity::Energy);
        total_of_first(&v, v.len())
    }

    /// The total charging time across all periods, in hours.
    pub fn total_charging_hours(&self) -> (r: Number)
        requires
            checked_total(charging_times(self.periods@)) is Some,
        ensures
            Some(r) == checked_total(charging_times(self.periods@)),
    {
        let v = quantities(&self.periods, Quantity::Charging);
        total_of_first(&v, v.len())
    }

    /// The total parking time across all periods, in hours.
    pub fn total_parking_hours(&self) -> (r: Number)
        requires
            checked_total(parking_times(self.periods@)) is Some,
        ensures
            Some(r) == checked_total(parking_times(self.periods@)),
    {
        let v = quantities(&self.periods, Quantity::Parking);
        total_of_first(&v, v.len())
    }

    /// The total reservation time across all periods, in hours.
    pub fn total_reservation_hours(&self) -> (r: Number)
        requires
            checked_total(reservation_times(self.periods@)) is Some,
        ensures
            Some(r) == checked_total(reservation_times(self.periods@)),
    {
        let v = quantities(&self.periods, Quantity::Reservation);
        total_of_first(&v, v.len())
    }

    /// The energy charged before period `index`, for a `min_kwh` or `max_kwh` restriction: the
    /// sum of the periods before it, or of all of them when there are fewer.
    pub fn energy_before(&self, index: usize) -> (r: Number)
        requires
            checked_total_prefix(
                energies(self.periods@),
                if index < self.periods@.len() { index as int } else { self.periods@.len() as int },
            ) is Some,
        ensures
            Some(r) == checked_total_prefix(
                energies(self.periods@),
                if index < self.periods@.len() { index as int } else { self.periods@.len() as int },
            ),
    {
        let v = quantities(&self.periods, Quantity::Energy);
        total_of_first(&v, index)
    }

    /// The session's duration up to the start of period `index`, in seconds; zero where there is
    /// no such period.
    pub fn duration_before(&self, index: usize) -> (r: i64)
        ensures
            r == if index < self.periods@.len() {
                self.periods@[index as int].start.spec_unix() - self.start.spec_unix()
            } else {
                0
            },
    {
        if index < self.periods.len() {
            let p = &self.periods[index];
            let a = p.start.unix_timestamp();
            let b = self.start.unix_timestamp();
            a - b
        } else {
            0
        }
    }

    /// The start of the first period that does not start after the one before it, if any.
    pub fn first_out_of_order(&self) -> (r: Option<DateTime>)
        ensures
            match out_of_order_at(self.periods@, self.periods@.len() as int) {
                Some(i) => r == Some(self.periods@[i].start),
                None => r is None,
            },
    {
        let n = self.periods.len();
        if n < 2 {
            return None;
        }
        let mut i: usize = 1;
        while i < n
            invariant
                1 <= i <= n,
                n == self.periods@.len(),
                out_of_order_at(self.periods@, i as int) is None,
            decreases n - i,
        {
            if !self.periods[i - 1].start.is_before(&self.periods[i].start) {
                proof {
                    lemma_out_of_order_stays(self.periods@, i as int + 1, n as int);
                }
                return Some(self.periods[i].start);
            }
            i = i + 1;
        }
        None
    }

    /// The end of period `index`: the start of the next one, or the end of the session.
    pub fn period_end(&self, index: usize) -> (r: Option<DateTime>)
        requires
            index < usize::MAX,
        ensures
            r == if index + 1 < self.periods@.len() {
                Some(self.periods@[index + 1].start)
            } else {
                self.end
            },
    {
        if index + 1 < self.periods.len() {
            Some(self.periods[index + 1].start)
        } else {
            self.end
        }
    }
}

} // verus!
