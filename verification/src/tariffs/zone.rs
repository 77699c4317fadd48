//! The IANA time zone a Location is in, which the local-time restrictions of a Tariff are
//! expressed in, and why a session could not be priced.

use vstd::prelude::*;

use crate::strings::{debug_text, eq_ignore_ascii_case, push_debug_str, push_str, str_eq_ignore_case};
use crate::types::datetime::{in_unix_range, DateTime};
use crate::types::number::{decimal_text, Number};

verus! {

/// What `tzdb::tz_by_name` finds for `name`: whether the IANA database compiled into `tzdb`
/// holds a zone of that name, ignoring ASCII case.
pub uninterp spec fn tz_known(name: Seq<char>) -> bool;

/// What the rules of the zone `tzdb::tz_by_name` finds for `name` give at the Unix time `unix`:
/// the UTC offset of the local time type `TimeZoneRef::find_local_time_type` finds, in seconds,
/// or the `Display` text of the error it reports.
pub uninterp spec fn tz_offset(name: Seq<char>, unix: int) -> Result<i32, Seq<char>>;

/// Looks a zone up in the IANA database and reads its UTC offset at a Unix time: `None` where
/// the database holds no zone of that name, else the offset in seconds or the text of the error.
///
/// Trusted: `tzdb::tz_by_name`, which finds a zone exactly for the names [`tz_known`] names, and
/// for that zone `TimeZoneRef::find_local_time_type` with `LocalTimeType::ut_offset`, whose
/// outcome [`tz_offset`] names. The zone data is compiled into `tzdb`, so the same name and time
/// give the same answer.
#[verifier::external_body]
fn zone_offset(name: &str, unix: i64) -> (r: Option<Result<i32, String>>)
    ensures
        match r {
            Some(Ok(o)) => tz_known(name@) && tz_offset(name@, unix as int) == Ok::<i32, Seq<char>>(o),
            Some(Err(e)) => tz_known(name@) && tz_offset(name@, unix as int) == Err::<i32, Seq<char>>(e@),
            None => !tz_known(name@),
        },
{
    match tzdb::tz_by_name(name) {
        Some(zone) => match zone.find_local_time_type(unix) {
            Ok(t) => Some(Ok(t.ut_offset())),
            Err(e) => Some(Err(e.to_string())),
        },
        None => None,
    }
}

/// Why a session could not be priced.
#[derive(Clone, Debug, PartialEq, Eq)]
#[non_exhaustive]
pub enum PricingError {
    /// No tariff was given at all.
    NoTariff,
    /// A charging period named a `tariff_id` that was not among the tariffs given.
    UnknownTariff(String),
    /// None of the tariffs given was valid at the moment in question.
    NoActiveTariff(DateTime),
    /// The Location's time zone could not be resolved.
    TimeZone(String),
    /// A quantity or price is too large to price: its magnitude is beyond `limit`.
    OutOfRange {
        /// Which figure, in words.
        what: String,
        /// Its value.
        value: Number,
        /// The largest magnitude priced.
        limit: Number,
    },
}

/// How a pricing error reads.
pub open spec fn pricing_error_text(e: PricingError) -> Seq<char> {
    match e {
        PricingError::NoTariff => "no tariff to price against"@,
        PricingError::UnknownTariff(id) => "charging period refers to tariff "@ + debug_text(id@)
            + ", which was not provided"@,
        PricingError::NoActiveTariff(at) => "no tariff is active at "@ + at.text(),
        PricingError::TimeZone(m) => "time zone: "@ + m@,
        PricingError::OutOfRange { what, value, limit } => what@ + " is "@ + decimal_text(
            value.spec_mantissa(),
            value.spec_scale(),
        ) + ", beyond the magnitude of "@ + decimal_text(limit.spec_mantissa(), limit.spec_scale())
            + " this engine prices"@,
    }
}

impl PricingError {
    /// How the error reads, as `Display` writes it.
    pub fn to_string(&self) -> (s: String)
        ensures
            s@ == pricing_error_text(*self),
    {
        let mut s = String::new();
        match self {
            PricingError::NoTariff => push_str(&mut s, "no tariff to price against"),
            PricingError::UnknownTariff(id) => {
                push_str(&mut s, "charging period refers to tariff ");
                push_debug_str(&mut s, id.as_str());
                push_str(&mut s, ", which was not provided");
            },
            PricingError::NoActiveTariff(at) => {
                push_str(&mut s, "no tariff is active at ");
                let text = at.to_string();
                push_str(&mut s, text.as_str());
            },
            PricingError::TimeZone(m) => {
                push_str(&mut s, "time zone: ");
                push_str(&mut s, m.as_str());
            },
            PricingError::OutOfRange { what, value, limit } => {
                push_str(&mut s, what.as_str());
                push_str(&mut s, " is ");
                let v = value.to_string();
                push_str(&mut s, v.as_str());
                push_str(&mut s, ", beyond the magnitude of ");
                let l = limit.to_string();
                push_str(&mut s, l.as_str());
                push_str(&mut s, " this engine prices");
            },
        }
        s
    }
}

/// The IANA time zone a Location is in.
#[derive(Debug)]
pub struct TimeZone {
    name: String,
    utc: bool,
}

impl TimeZone {
    /// The name this zone was built from.
    pub closed spec fn spec_name(&self) -> Seq<char> {
        self.name@
    }

    /// Whether this is UTC, which needs no rules.
    pub closed spec fn spec_is_utc(&self) -> bool {
        self.utc
    }

    /// What the zone's rules give at the Unix time `unix`: the UTC offset in seconds (zero in
    /// UTC), or the text of the error where they cover no such instant.
    pub closed spec fn spec_offset_at(&self, unix: int) -> Result<i32, Seq<char>> {
        if self.utc {
            Ok(0)
        } else {
            tz_offset(self.name@, unix)
        }
    }

    /// What a wall-clock reading of the Unix time `unix` in this zone is: the Unix time moved by
    /// the zone's offset, or the text of the error where there is no offset or the reading falls
    /// outside the range of timestamps.
    pub open spec fn local_reading(&self, unix: int) -> Result<int, Seq<char>> {
        match self.spec_offset_at(unix) {
            Ok(o) => if in_unix_range(unix + o) {
                Ok(unix + o)
            } else {
                Err(self.spec_name() + ": the local time is out of range"@)
            },
            Err(e) => Err(self.spec_name() + ": "@ + e),
        }
    }

    /// A zone that is not UTC is one the database holds.
    #[verifier::type_invariant]
    closed spec fn known(self) -> bool {
        self.utc || tz_known(self.name@)
    }

    /// UTC, for tests and for a Location whose zone is not known.
    pub fn utc() -> (z: Self)
        ensures
            z.spec_name() == "UTC"@,
            z.spec_is_utc(),
    {
        TimeZone { name: String::from_str("UTC"), utc: true }
    }

    /// Resolves an IANA time zone name, such as `Europe/Oslo`: `UTC` in any case is UTC, a name
    /// the database holds is that zone, and any other name is refused.
    pub fn named(name: &str) -> (r: Result<Self, PricingError>)
        ensures
            str_eq_ignore_case(name@, "UTC"@) ==> (r matches Ok(z) && z.spec_name() == "UTC"@ && z.spec_is_utc()),
            !str_eq_ignore_case(name@, "UTC"@) && tz_known(name@) ==> (r matches Ok(z) && z.spec_name() == name@
                && !z.spec_is_utc()),
            !str_eq_ignore_case(name@, "UTC"@) && !tz_known(name@) ==> (r matches Err(PricingError::TimeZone(m))
                && m@ == "unknown IANA time zone "@ + debug_text(name@)),
    {
        if eq_ignore_ascii_case(name, "UTC") {
            return Ok(Self::utc());
        }
        // The database answers for a name it holds at any instant; the epoch will do.
        match zone_offset(name, 0) {
            Some(_) => Ok(TimeZone { name: String::from_str(name), utc: false }),
            None => {
                let mut m = String::new();
                push_str(&mut m, "unknown IANA time zone ");
                push_debug_str(&mut m, name);
                Err(PricingError::TimeZone(m))
            },
        }
    }

    /// The IANA name this zone was built from.
    pub fn name(&self) -> (s: &str)
        ensures
            s@ == self.spec_name(),
    {
        self.name.as_str()
    }

    /// The UTC offset in effect at `instant`, in seconds: zero in UTC, and otherwise what the
    /// zone's rules say, or an error naming the zone where they cover no such instant.
    pub fn offset_seconds_at(&self, instant: DateTime) -> (r: Result<i32, PricingError>)
        ensures
            self.spec_is_utc() ==> r == Ok::<i32, PricingError>(0),
            !self.spec_is_utc() ==> match tz_offset(self.spec_name(), instant.spec_unix()) {
                Ok(o) => r == Ok::<i32, PricingError>(o),
                Err(e) => r matches Err(PricingError::TimeZone(m)) && m@ == self.spec_name() + ": "@ + e,
            },
    {
        proof {
            use_type_invariant(self);
        }
        if self.utc {
            return Ok(0);
        }
        match zone_offset(self.name.as_str(), instant.unix_timestamp()) {
            Some(Ok(o)) => Ok(o),
            Some(Err(e)) => {
                let mut m = String::new();
                push_str(&mut m, self.name.as_str());
                push_str(&mut m, ": ");
                push_str(&mut m, e.as_str());
                Err(PricingError::TimeZone(m))
            },
            // Not reached: a zone that is not UTC is one the database holds.
            None => Err(self.out_of_range()),
        }
    }

    /// `instant` as a wall-clock reading in this zone: the instant moved by the zone's offset,
    /// with its nanoseconds kept. An error where the offset cannot be determined, or where the
    /// reading falls outside the range of timestamps.
    pub fn to_local(&self, instant: DateTime) -> (r: Result<DateTime, PricingError>)
        ensures
            match self.local_reading(instant.spec_unix()) {
                Ok(u) => r matches Ok(d) && d.spec_unix() == u && d.spec_nanos() == instant.spec_nanos(),
                Err(m) => r matches Err(PricingError::TimeZone(t)) && t@ == m,
            },
            r matches Ok(d) ==> exists|o: int| #[trigger] in_unix_range(instant.spec_unix() + o)
                && d.spec_unix() == instant.spec_unix() + o && d.spec_nanos() == instant.spec_nanos()
                && (self.spec_is_utc() ==> o == 0),
            r matches Err(e) ==> e is TimeZone,
    {
        let offset = match self.offset_seconds_at(instant) {
            Ok(o) => o,
            Err(e) => return Err(e),
        };
        let unix = instant.unix_timestamp();
        proof {
            use_type_invariant(&instant);
        }
        let shifted = if offset < 0 {
            if unix < i64::MIN - (offset as i64) {
                None
            } else {
                Some(unix + offset as i64)
            }
        } else if unix > i64::MAX - (offset as i64) {
            None
        } else {
            Some(unix + offset as i64)
        };
        let reading = match shifted {
            Some(s) => DateTime::from_utc(s, instant.nanosecond()),
            None => return Err(self.out_of_range()),
        };
        match reading {
            Ok(d) => Ok(d),
            Err(_) => Err(self.out_of_range()),
        }
    }

    /// The error for a wall-clock reading outside the range of timestamps.
    fn out_of_range(&self) -> (e: PricingError)
        ensures
            e matches PricingError::TimeZone(m) && m@ == self.spec_name() + ": the local time is out of range"@,
    {
        let mut m = String::new();
        push_str(&mut m, self.name.as_str());
        push_str(&mut m, ": the local time is out of range");
        PricingError::TimeZone(m)
    }
}

impl Clone for TimeZone {
    fn clone(&self) -> (z: Self)
        ensures
            z == *self,
    {
        proof {
            use_type_invariant(self);
        }
        TimeZone { name: self.name.clone(), utc: self.utc }
    }
}

impl PartialEq for TimeZone {
    fn eq(&self, other: &Self) -> (r: bool) {
        eq_ignore_ascii_case(self.name.as_str(), other.name.as_str())
    }
}

impl vstd::std_specs::cmp::PartialEqSpecImpl for TimeZone {
    open spec fn obeys_eq_spec() -> bool {
        true
    }

    open spec fn eq_spec(&self, other: &Self) -> bool {
        str_eq_ignore_case(self.spec_name(), other.spec_name())
    }
}

} // verus!
