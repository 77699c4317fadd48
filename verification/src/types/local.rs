//! Local wall-clock times and calendar dates, as tariff restrictions write them.

use vstd::prelude::*;

use crate::strings::{
    dec_padded, debug_text, is_ascii_digit, push_debug_str, push_decimal_padded, push_signed_padded,
    push_str, signed_padded,
};

verus! {

/// A time of day, `HH:MM`, in the local time of a Location.
#[derive(Clone, Copy, PartialEq, Eq, PartialOrd, Ord, Hash, Default, Debug, Structural)]
pub struct LocalTime {
    hour: u8,
    minute: u8,
}

/// Why a time of day was refused.
#[derive(Clone, Debug, PartialEq, Eq)]
pub struct InvalidLocalTime(String);

/// Why a calendar date was refused.
#[derive(Clone, Debug, PartialEq, Eq)]
pub struct InvalidLocalDate(String);

impl InvalidLocalTime {
    /// The explanation.
    pub closed spec fn spec_message(&self) -> Seq<char> {
        self.0@
    }

    /// The explanation a person reads.
    pub fn to_string(&self) -> (s: String)
        ensures
            s@ == "invalid time of day: "@ + self.spec_message(),
    {
        let mut s = String::new();
        push_str(&mut s, "invalid time of day: ");
        push_str(&mut s, self.0.as_str());
        s
    }
}

impl InvalidLocalDate {
    /// The explanation.
    pub closed spec fn spec_message(&self) -> Seq<char> {
        self.0@
    }

    /// The explanation a person reads.
    pub fn to_string(&self) -> (s: String)
        ensures
            s@ == "invalid local date: "@ + self.spec_message(),
    {
        let mut s = String::new();
        push_str(&mut s, "invalid local date: ");
        push_str(&mut s, self.0.as_str());
        s
    }
}

/// `HH:MM`, both halves two digits.
pub open spec fn hh_mm(hour: nat, minute: nat) -> Seq<char> {
    dec_padded(hour, 2) + ":"@ + dec_padded(minute, 2)
}

/// The value of one ASCII digit.
pub open spec fn digit_value(c: char) -> nat {
    (c as nat - 48) as nat
}

/// The value of the two ASCII digits `a` and `b`.
pub open spec fn two_digit_value(a: char, b: char) -> nat {
    digit_value(a) * 10 + digit_value(b)
}

/// Whether `s` has the shape `DD:DD`.
pub open spec fn is_hh_mm_shaped(s: Seq<char>) -> bool {
    &&& s.len() == 5
    &&& s[2] == ':'
    &&& is_ascii_digit(s[0]) && is_ascii_digit(s[1])
    &&& is_ascii_digit(s[3]) && is_ascii_digit(s[4])
}

fn digit_at(s: &str, i: usize) -> (r: Option<u8>)
    requires
        i < s@.len(),
    ensures
        r is Some <==> is_ascii_digit(s@[i as int]),
        r matches Some(v) ==> v == digit_value(s@[i as int]) && v < 10,
{
    let c = s.get_char(i);
    if '0' <= c && c <= '9' {
        Some((c as u32 - 48) as u8)
    } else {
        None
    }
}

impl LocalTime {
    /// The hour.
    pub closed spec fn spec_hour(self) -> u8 {
        self.hour
    }

    /// The minute.
    pub closed spec fn spec_minute(self) -> u8 {
        self.minute
    }

    /// The time of day `hour:minute`.
    pub closed spec fn spec_at(hour: u8, minute: u8) -> LocalTime {
        LocalTime { hour, minute }
    }

    /// A time of day is the one its hour and minute make.
    pub broadcast proof fn lemma_at(self)
        ensures
            #[trigger] LocalTime::spec_at(self.spec_hour(), self.spec_minute()) == self,
    {
    }

    /// Minutes since midnight.
    pub open spec fn spec_minutes(self) -> nat {
        self.spec_hour() as nat * 60 + self.spec_minute() as nat
    }

    /// Every value has an hour below 24 and a minute below 60.
    pub closed spec fn wf(self) -> bool {
        self.hour <= 23 && self.minute <= 59
    }

    /// Midnight, `00:00`.
    pub fn midnight() -> (t: Self)
        ensures
            t.spec_hour() == 0 && t.spec_minute() == 0,
            t.wf(),
    {
        LocalTime { hour: 0, minute: 0 }
    }

    /// A time of day from its hour and minute.
    pub fn new(hour: u8, minute: u8) -> (res: Result<Self, InvalidLocalTime>)
        ensures
            res is Ok <==> (hour <= 23 && minute <= 59),
            res matches Ok(t) ==> t.spec_hour() == hour && t.spec_minute() == minute && t.wf(),
            res matches Err(e) ==> e.spec_message() == hh_mm(hour as nat, minute as nat)
                + " is not a time of day"@,
    {
        if hour > 23 || minute > 59 {
            let mut m = String::new();
            push_decimal_padded(&mut m, hour as u64, 2);
            push_str(&mut m, ":");
            push_decimal_padded(&mut m, minute as u64, 2);
            push_str(&mut m, " is not a time of day");
            assert(m@ =~= hh_mm(hour as nat, minute as nat) + " is not a time of day"@);
            return Err(InvalidLocalTime(m));
        }
        Ok(LocalTime { hour, minute })
    }

    /// Parses the wire form, `HH:MM` with both halves two digits.
    pub fn parse(s: &str) -> (res: Result<Self, InvalidLocalTime>)
        ensures
            res is Ok <==> is_hh_mm_shaped(s@) && two_digit_value(s@[0], s@[1]) <= 23
                && two_digit_value(s@[3], s@[4]) <= 59,
            res matches Ok(t) ==> t.spec_hour() == two_digit_value(s@[0], s@[1])
                && t.spec_minute() == two_digit_value(s@[3], s@[4]),
            res matches Err(e) ==> e.spec_message() == if is_hh_mm_shaped(s@) {
                hh_mm(two_digit_value(s@[0], s@[1]), two_digit_value(s@[3], s@[4]))
                    + " is not a time of day"@
            } else {
                debug_text(s@) + " is not \"HH:MM\""@
            },
    {
        if s.unicode_len() == 5 && s.get_char(2) == ':' {
            let h1 = digit_at(s, 0);
            let h2 = digit_at(s, 1);
            let m1 = digit_at(s, 3);
            let m2 = digit_at(s, 4);
            match (h1, h2, m1, m2) {
                (Some(a), Some(b), Some(c), Some(d)) => {
                    return Self::new(a * 10 + b, c * 10 + d);
                },
                _ => {},
            }
        }
        let mut m = String::new();
        push_debug_str(&mut m, s);
        push_str(&mut m, " is not \"HH:MM\"");
        Err(InvalidLocalTime(m))
    }

    /// The hour.
    pub fn hour(self) -> (r: u8)
        ensures
            r == self.spec_hour(),
    {
        self.hour
    }

    /// The minute.
    pub fn minute(self) -> (r: u8)
        ensures
            r == self.spec_minute(),
    {
        self.minute
    }

    /// Minutes since midnight.
    pub fn minutes_since_midnight(self) -> (r: u16)
        ensures
            r == self.spec_minutes(),
    {
        self.hour as u16 * 60 + self.minute as u16
    }

    /// Whether this time lies in the window `[start, end)`, which wraps past midnight when
    /// `end` is earlier than `start`. A window whose ends coincide is the whole day.
    pub fn is_within(self, start: Self, end: Self) -> (r: bool)
        ensures
            r == within_window(self.spec_minutes(), start.spec_minutes(), end.spec_minutes()),
    {
        let t = self.minutes_since_midnight();
        let s = start.minutes_since_midnight();
        let e = end.minutes_since_midnight();
        if s == e {
            return true;
        }
        if s < e {
            t >= s && t < e
        } else {
            t >= s || t < e
        }
    }

    /// The wire form, `HH:MM`.
    pub fn to_string(&self) -> (s: String)
        ensures
            s@ == hh_mm(self.spec_hour() as nat, self.spec_minute() as nat),
    {
        let mut s = String::new();
        push_decimal_padded(&mut s, self.hour as u64, 2);
        push_str(&mut s, ":");
        push_decimal_padded(&mut s, self.minute as u64, 2);
        assert(s@ =~= hh_mm(self.spec_hour() as nat, self.spec_minute() as nat));
        s
    }
}

/// Whether minute-of-day `t` lies in `[s, e)`, wrapping past midnight when `e < s`; `s == e` is
/// the whole day.
pub open spec fn within_window(t: nat, s: nat, e: nat) -> bool {
    if s == e {
        true
    } else if s < e {
        s <= t < e
    } else {
        t >= s || t < e
    }
}

impl core::str::FromStr for LocalTime {
    type Err = InvalidLocalTime;

    fn from_str(s: &str) -> (res: Result<Self, Self::Err>)
        ensures
            res is Ok <==> is_hh_mm_shaped(s@) && two_digit_value(s@[0], s@[1]) <= 23
                && two_digit_value(s@[3], s@[4]) <= 59,
            res matches Ok(t) ==> t.spec_hour() == two_digit_value(s@[0], s@[1])
                && t.spec_minute() == two_digit_value(s@[3], s@[4]),
            res matches Err(e) ==> e.spec_message() == if is_hh_mm_shaped(s@) {
                hh_mm(two_digit_value(s@[0], s@[1]), two_digit_value(s@[3], s@[4]))
                    + " is not a time of day"@
            } else {
                debug_text(s@) + " is not \"HH:MM\""@
            },
    {
        Self::parse(s)
    }
}

/// Whether `year` is a leap year in the proleptic Gregorian calendar.
pub open spec fn is_leap_year(year: int) -> bool {
    (year % 4 == 0 && year % 100 != 0) || year % 400 == 0
}

/// The number of days in `month` of `year`.
pub open spec fn days_in_month(month: int, year: int) -> int {
    if month == 2 {
        if is_leap_year(year) {
            29
        } else {
            28
        }
    } else if month == 4 || month == 6 || month == 9 || month == 11 {
        30
    } else {
        31
    }
}

/// A date that exists, in the years the `time` crate represents (±9999).
pub open spec fn is_calendar_date(year: int, month: int, day: int) -> bool {
    &&& -9999 <= year <= 9999
    &&& 1 <= month <= 12
    &&& 1 <= day <= days_in_month(month, year)
}

/// Whether a calendar date exists.
///
/// Trusted: `time::Month::try_from` accepts exactly 1 to 12, and `time::Date::from_calendar_date`
/// accepts a year in -9999..=9999 (the crate is built without `large-dates`) and a day from 1 to
/// the length of that month in the proleptic Gregorian calendar, as the crate's source shows.
#[verifier::external_body]
pub(crate) fn calendar_date_exists(year: i32, month: u8, day: u8) -> (r: bool)
    ensures
        r == is_calendar_date(year as int, month as int, day as int),
{
    match time::Month::try_from(month) {
        Ok(m) => time::Date::from_calendar_date(year, m, day).is_ok(),
        Err(_) => false,
    }
}

/// A calendar date, `YYYY-MM-DD`, in the local time of a Location.
#[derive(Clone, Copy, PartialEq, Eq, PartialOrd, Ord, Hash, Debug, Structural)]
pub struct LocalDate {
    year: i32,
    month: u8,
    day: u8,
}

/// `YYYY-MM-DD` as Rust's `{:04}-{:02}-{:02}` writes it.
pub open spec fn ymd_text(year: int, month: nat, day: nat) -> Seq<char> {
    signed_padded(year, 4) + "-"@ + dec_padded(month, 2) + "-"@ + dec_padded(day, 2)
}

/// Whether `s` has the shape `DDDD-DD-DD`.
pub open spec fn is_ymd_shaped(s: Seq<char>) -> bool {
    &&& s.len() == 10
    &&& s[4] == '-' && s[7] == '-'
    &&& forall|i: int|
        0 <= i < 10 && i != 4 && i != 7 ==> is_ascii_digit(#[trigger] s[i])
}

/// The value of the four ASCII digits at the start of `s`.
pub open spec fn four_digit_value(s: Seq<char>) -> nat {
    two_digit_value(s[0], s[1]) * 100 + two_digit_value(s[2], s[3])
}

impl LocalDate {
    /// The year.
    pub closed spec fn spec_year(self) -> i32 {
        self.year
    }

    /// The month, 1 to 12.
    pub closed spec fn spec_month(self) -> u8 {
        self.month
    }

    /// The day of the month.
    pub closed spec fn spec_day(self) -> u8 {
        self.day
    }

    /// The date `year-month-day`.
    pub closed spec fn spec_on(year: i32, month: u8, day: u8) -> LocalDate {
        LocalDate { year, month, day }
    }

    /// A date is the one its year, month and day make.
    pub broadcast proof fn lemma_on(self)
        ensures
            #[trigger] LocalDate::spec_on(self.spec_year(), self.spec_month(), self.spec_day()) == self,
    {
    }

    /// Whether this date comes strictly before `other` in the calendar.
    pub open spec fn spec_before(self, other: LocalDate) -> bool {
        ||| self.spec_year() < other.spec_year()
        ||| self.spec_year() == other.spec_year() && self.spec_month() < other.spec_month()
        ||| self.spec_year() == other.spec_year() && self.spec_month() == other.spec_month()
            && self.spec_day() < other.spec_day()
    }

    /// Whether this date comes strictly before `other`: the order dates are compared in.
    pub fn is_before(self, other: LocalDate) -> (r: bool)
        ensures
            r == self.spec_before(other),
    {
        self.year < other.year || (self.year == other.year && (self.month < other.month || (
        self.month == other.month && self.day < other.day)))
    }

    /// A date from its parts, refusing a date that does not exist.
    pub fn new(year: i32, month: u8, day: u8) -> (res: Result<Self, InvalidLocalDate>)
        ensures
            res is Ok <==> is_calendar_date(year as int, month as int, day as int),
            res matches Ok(d) ==> d.spec_year() == year && d.spec_month() == month && d.spec_day()
                == day,
            res matches Err(e) ==> e.spec_message() == ymd_text(year as int, month as nat, day as nat)
                + " is not a date"@,
    {
        if !calendar_date_exists(year, month, day) {
            let mut m = String::new();
            push_signed_padded(&mut m, year as i64, 4);
            push_str(&mut m, "-");
            push_decimal_padded(&mut m, month as u64, 2);
            push_str(&mut m, "-");
            push_decimal_padded(&mut m, day as u64, 2);
            push_str(&mut m, " is not a date");
            assert(m@ =~= ymd_text(year as int, month as nat, day as nat) + " is not a date"@);
            return Err(InvalidLocalDate(m));
        }
        Ok(LocalDate { year, month, day })
    }

    /// Parses the wire form, `YYYY-MM-DD`.
    pub fn parse(s: &str) -> (res: Result<Self, InvalidLocalDate>)
        ensures
            res is Ok <==> is_ymd_shaped(s@) && is_calendar_date(
                four_digit_value(s@) as int,
                two_digit_value(s@[5], s@[6]) as int,
                two_digit_value(s@[8], s@[9]) as int,
            ),
            res matches Ok(d) ==> d.spec_year() == four_digit_value(s@) && d.spec_month()
                == two_digit_value(s@[5], s@[6]) && d.spec_day() == two_digit_value(s@[8], s@[9]),
            res matches Err(e) ==> e.spec_message() == if is_ymd_shaped(s@) {
                ymd_text(
                    four_digit_value(s@) as int,
                    two_digit_value(s@[5], s@[6]),
                    two_digit_value(s@[8], s@[9]),
                ) + " is not a date"@
            } else {
                debug_text(s@) + " is not \"YYYY-MM-DD\""@
            },
    {
        if s.unicode_len() == 10 && s.get_char(4) == '-' && s.get_char(7) == '-' {
            let y1 = digit_at(s, 0);
            let y2 = digit_at(s, 1);
            let y3 = digit_at(s, 2);
            let y4 = digit_at(s, 3);
            let m1 = digit_at(s, 5);
            let m2 = digit_at(s, 6);
            let d1 = digit_at(s, 8);
            let d2 = digit_at(s, 9);
            match (y1, y2, y3, y4, m1, m2, d1, d2) {
                (Some(a), Some(b), Some(c), Some(d), Some(e), Some(f), Some(g), Some(h)) => {
                    let year = (a as i32) * 1000 + (b as i32) * 100 + (c as i32) * 10 + (d as i32);
                    return Self::new(year, e * 10 + f, g * 10 + h);
                },
                _ => {},
            }
        }
        let mut m = String::new();
        push_debug_str(&mut m, s);
        push_str(&mut m, " is not \"YYYY-MM-DD\"");
        Err(InvalidLocalDate(m))
    }

    /// The year.
    pub fn year(self) -> (r: i32)
        ensures
            r == self.spec_year(),
    {
        self.year
    }

    /// The month, 1 to 12.
    pub fn month(self) -> (r: u8)
        ensures
            r == self.spec_month(),
    {
        self.month
    }

    /// The day of the month.
    pub fn day(self) -> (r: u8)
        ensures
            r == self.spec_day(),
    {
        self.day
    }

    /// The wire form, `YYYY-MM-DD`.
    pub fn to_string(&self) -> (s: String)
        ensures
            s@ == ymd_text(self.spec_year() as int, self.spec_month() as nat, self.spec_day() as nat),
    {
        let mut s = String::new();
        push_signed_padded(&mut s, self.year as i64, 4);
        push_str(&mut s, "-");
        push_decimal_padded(&mut s, self.month as u64, 2);
        push_str(&mut s, "-");
        push_decimal_padded(&mut s, self.day as u64, 2);
        assert(s@ =~= ymd_text(self.spec_year() as int, self.spec_month() as nat, self.spec_day() as nat));
        s
    }
}

impl core::str::FromStr for LocalDate {
    type Err = InvalidLocalDate;

    fn from_str(s: &str) -> (res: Result<Self, Self::Err>)
        ensures
            res is Ok <==> is_ymd_shaped(s@) && is_calendar_date(
                four_digit_value(s@) as int,
                two_digit_value(s@[5], s@[6]) as int,
                two_digit_value(s@[8], s@[9]) as int,
            ),
            res matches Ok(d) ==> d.spec_year() == four_digit_value(s@) && d.spec_month()
                == two_digit_value(s@[5], s@[6]) && d.spec_day() == two_digit_value(s@[8], s@[9]),
            res matches Err(e) ==> e.spec_message() == if is_ymd_shaped(s@) {
                ymd_text(
                    four_digit_value(s@) as int,
                    two_digit_value(s@[5], s@[6]),
                    two_digit_value(s@[8], s@[9]),
                ) + " is not a date"@
            } else {
                debug_text(s@) + " is not \"YYYY-MM-DD\""@
            },
    {
        Self::parse(s)
    }
}

} // verus!
