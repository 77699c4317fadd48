//! The parts of an OCPI Tariff that the lints and the restriction rules read: its elements,
//! their Price Components and restrictions, its tax statement, its price limits and its validity
//! window.

use vstd::prelude::*;

use crate::types::cistring::CiString;
use crate::types::datetime::DateTime;
use crate::types::local::{LocalDate, LocalTime};
use crate::types::number::Number;

verus! {

/// The dimension a Price Component prices.
#[derive(Clone, Copy, Debug, PartialEq, Eq, Hash, Structural)]
pub enum TariffDimensionType {
    /// Energy, per kWh.
    Energy,
    /// A flat fee, without unit.
    Flat,
    /// Time not charging, per hour.
    ParkingTime,
    /// Time charging, per hour.
    Time,
}

/// The wire value of a dimension.
pub open spec fn dimension_wire(d: TariffDimensionType) -> Seq<char> {
    match d {
        TariffDimensionType::Energy => "ENERGY"@,
        TariffDimensionType::Flat => "FLAT"@,
        TariffDimensionType::ParkingTime => "PARKING_TIME"@,
        TariffDimensionType::Time => "TIME"@,
    }
}

impl TariffDimensionType {
    /// The wire value.
    pub fn as_str(self) -> (s: &'static str)
        ensures
            s@ == dimension_wire(self),
    {
        proof {
            reveal_strlit("ENERGY");
            reveal_strlit("FLAT");
            reveal_strlit("PARKING_TIME");
            reveal_strlit("TIME");
        }
        match self {
            TariffDimensionType::Energy => "ENERGY",
            TariffDimensionType::Flat => "FLAT",
            TariffDimensionType::ParkingTime => "PARKING_TIME",
            TariffDimensionType::Time => "TIME",
        }
    }
}

/// A day of the week.
#[derive(Clone, Copy, Debug, PartialEq, Eq, Hash, Structural)]
pub enum DayOfWeek {
    /// Monday.
    Monday,
    /// Tuesday.
    Tuesday,
    /// Wednesday.
    Wednesday,
    /// Thursday.
    Thursday,
    /// Friday.
    Friday,
    /// Saturday.
    Saturday,
    /// Sunday.
    Sunday,
}

/// The day an ISO 8601 weekday number names: 1 is Monday, 7 is Sunday.
pub open spec fn iso_day(n: int) -> Option<DayOfWeek> {
    if n == 1 {
        Some(DayOfWeek::Monday)
    } else if n == 2 {
        Some(DayOfWeek::Tuesday)
    } else if n == 3 {
        Some(DayOfWeek::Wednesday)
    } else if n == 4 {
        Some(DayOfWeek::Thursday)
    } else if n == 5 {
        Some(DayOfWeek::Friday)
    } else if n == 6 {
        Some(DayOfWeek::Saturday)
    } else if n == 7 {
        Some(DayOfWeek::Sunday)
    } else {
        None
    }
}

/// The wire value of a day.
pub open spec fn day_wire(d: DayOfWeek) -> Seq<char> {
    match d {
        DayOfWeek::Monday => "MONDAY"@,
        DayOfWeek::Tuesday => "TUESDAY"@,
        DayOfWeek::Wednesday => "WEDNESDAY"@,
        DayOfWeek::Thursday => "THURSDAY"@,
        DayOfWeek::Friday => "FRIDAY"@,
        DayOfWeek::Saturday => "SATURDAY"@,
        DayOfWeek::Sunday => "SUNDAY"@,
    }
}

impl DayOfWeek {
    /// The wire value.
    pub fn as_str(self) -> (s: &'static str)
        ensures
            s@ == day_wire(self),
    {
        match self {
            DayOfWeek::Monday => "MONDAY",
            DayOfWeek::Tuesday => "TUESDAY",
            DayOfWeek::Wednesday => "WEDNESDAY",
            DayOfWeek::Thursday => "THURSDAY",
            DayOfWeek::Friday => "FRIDAY",
            DayOfWeek::Saturday => "SATURDAY",
            DayOfWeek::Sunday => "SUNDAY",
        }
    }

    /// The day an ISO 8601 weekday number names, 1 for Monday through 7 for Sunday.
    pub fn from_iso_number(n: u8) -> (r: Option<Self>)
        ensures
            r == iso_day(n as int),
    {
        match n {
            1 => Some(DayOfWeek::Monday),
            2 => Some(DayOfWeek::Tuesday),
            3 => Some(DayOfWeek::Wednesday),
            4 => Some(DayOfWeek::Thursday),
            5 => Some(DayOfWeek::Friday),
            6 => Some(DayOfWeek::Saturday),
            7 => Some(DayOfWeek::Sunday),
            _ => None,
        }
    }
}

/// Which reservation costs an element describes.
#[derive(Clone, Copy, Debug, PartialEq, Eq, Hash, Structural)]
pub enum ReservationRestrictionType {
    /// The cost of a reservation.
    Reservation,
    /// The cost of a reservation that expired unused.
    ReservationExpires,
}

/// Whether a Tariff's prices include taxes.
#[derive(Clone, Copy, Debug, PartialEq, Eq, Hash, Structural)]
pub enum TaxIncluded {
    /// The prices include tax.
    Yes,
    /// The prices exclude tax.
    No,
    /// No taxes apply.
    NotApplicable,
}

/// A price, before taxes and, optionally, after.
#[derive(Clone, Copy, Debug, PartialEq)]
pub struct Price {
    /// The price excluding taxes.
    pub before_taxes: Number,
    /// The price including taxes, when stated.
    pub after_taxes: Option<Number>,
}

/// How consumption of one dimension is priced.
#[derive(Clone, Copy, Debug, PartialEq)]
pub struct PriceComponent {
    /// The dimension priced.
    pub component_type: TariffDimensionType,
    /// The price per unit.
    pub price: Number,
    /// The VAT percentage, when stated.
    pub vat: Option<Number>,
    /// The block size the dimension is billed in.
    pub step_size: u32,
}

/// When a Tariff Element applies: every restriction that is set must match.
#[derive(Clone, Debug, Default, PartialEq)]
pub struct TariffRestrictions {
    /// Valid from this time of day.
    pub start_time: Option<LocalTime>,
    /// Valid until this time of day, exclusive.
    pub end_time: Option<LocalTime>,
    /// Valid from this day, inclusive.
    pub start_date: Option<LocalDate>,
    /// Valid until this day, exclusive.
    pub end_date: Option<LocalDate>,
    /// Valid from this amount of energy used, inclusive.
    pub min_kwh: Option<Number>,
    /// Valid until this amount of energy used, exclusive.
    pub max_kwh: Option<Number>,
    /// Valid from this charging current, in A, inclusive.
    pub min_current: Option<Number>,
    /// Valid until this charging current, in A, exclusive.
    pub max_current: Option<Number>,
    /// Valid from this charging power, in kW, inclusive.
    pub min_power: Option<Number>,
    /// Valid until this charging power, in kW, exclusive.
    pub max_power: Option<Number>,
    /// Valid from this session duration, in seconds, inclusive.
    pub min_duration: Option<u64>,
    /// Valid until this session duration, in seconds, exclusive.
    pub max_duration: Option<u64>,
    /// Valid on these days of the week; every day when empty.
    pub day_of_week: Vec<DayOfWeek>,
    /// When present, the element describes reservation costs.
    pub reservation: Option<ReservationRestrictionType>,
}

/// Price Components that apply together, under the same restrictions.
#[derive(Clone, Debug, PartialEq)]
pub struct TariffElement {
    /// The components, in order.
    pub price_components: Vec<PriceComponent>,
    /// When the element applies; always when absent.
    pub restrictions: Option<TariffRestrictions>,
}

/// Which sessions a Tariff is meant for.
#[derive(Clone, Copy, Debug, PartialEq, Eq, Hash, Structural)]
pub enum TariffType {
    /// For ad-hoc payment, without a contract.
    AdHocPayment,
    /// For drivers who chose the cheapest charging.
    ProfileCheap,
    /// For drivers who chose the fastest charging.
    ProfileFast,
    /// For drivers who chose green energy.
    ProfileGreen,
    /// For drivers with a contract and no particular preference.
    Regular,
}

/// A Tariff, as far as the lints and pricing read it.
#[derive(Clone, Debug, PartialEq)]
pub struct Tariff {
    /// The id the CPO gave the Tariff; charging periods refer to it.
    pub id: CiString<36>,
    /// Which sessions the Tariff is for; for every session when absent.
    pub tariff_type: Option<TariffType>,
    /// The elements, in order: for each dimension the first that matches is used.
    pub elements: Vec<TariffElement>,
    /// Whether the prices include tax.
    pub tax_included: TaxIncluded,
    /// The least a session costs.
    pub min_price: Option<Price>,
    /// The most a session costs.
    pub max_price: Option<Price>,
    /// When the Tariff becomes active.
    pub start_date_time: Option<DateTime>,
    /// When the Tariff stops being active.
    pub end_date_time: Option<DateTime>,
}

/// Whether a Tariff is active at `at`: from its `start_date_time`, inclusive, until its
/// `end_date_time`, exclusive, either bound being open when absent.
pub open spec fn tariff_active_at(t: Tariff, at: DateTime) -> bool {
    &&& match t.start_date_time {
        Some(s) => s.instant() <= at.instant(),
        None => true,
    }
    &&& match t.end_date_time {
        Some(e) => at.instant() < e.instant(),
        None => true,
    }
}

impl Tariff {
    /// Whether the Tariff is active at `at`.
    pub fn is_active_at(&self, at: DateTime) -> (r: bool)
        ensures
            r == tariff_active_at(*self, at),
    {
        let started = match self.start_date_time {
            Some(s) => !at.is_before(&s),
            None => true,
        };
        let not_ended = match self.end_date_time {
            Some(e) => at.is_before(&e),
            None => true,
        };
        started && not_ended
    }

    /// Whether the Tariff is the free-of-charge shape: one unrestricted element whose only
    /// component is a FLAT price of zero.
    pub fn is_free_of_charge(&self) -> (r: bool)
        ensures
            r == free_of_charge(*self),
    {
        if self.elements.len() != 1 {
            return false;
        }
        let element = &self.elements[0];
        if element.restrictions.is_some() || element.price_components.len() != 1 {
            return false;
        }
        let pc = &element.price_components[0];
        pc.component_type == TariffDimensionType::Flat && pc.price.is_zero()
    }
}

/// Whether `t` is one unrestricted element whose only component is a FLAT price of zero.
pub open spec fn free_of_charge(t: Tariff) -> bool {
    &&& t.elements@.len() == 1
    &&& t.elements@[0].restrictions is None
    &&& t.elements@[0].price_components@.len() == 1
    &&& t.elements@[0].price_components@[0].component_type == TariffDimensionType::Flat
    &&& t.elements@[0].price_components@[0].price.spec_mantissa() == 0
}

} // verus!
