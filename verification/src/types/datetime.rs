//! `DateTime`: the OCPI timestamp, RFC 3339, always UTC.
//!
//! The six forms the specification allows are, by example, `2015-06-29T20:39:09Z`,
//! `2015-06-29T20:39:09`, `2016-12-29T17:45:09.2Z`, `2016-12-29T17:45:09.2`,
//! `2018-01-01T01:08:01.123Z` and `2018-01-01T01:08:01.123`. An explicit offset (even
//! `+00:00`, which the specification says is not the same as UTC), a lower-case `z`, a space in
//! place of `T`, a comma before the fraction, a leap second or more than nine fractional digits
//! are tolerated: the instant is kept and the value is flagged as not canonical.

use vstd::prelude::*;
use vstd::string::StringSliceAdditionalSpecFns;
use vstd::utf8::{encode_utf8, is_char_boundary};

use crate::strings::{
    chars_of, dec_digits, dec_padded, digit_char, zeros, debug_text, push_debug_str, push_decimal_padded, push_signed_padded,
    push_str, signed_padded, string_from_chars,
};
use super::local::{calendar_date_exists, is_calendar_date};
use super::validate::{Validate, Validator, ViolationCode, ViolationView};

verus! {

/// The earliest instant the `time` crate represents, `-9999-01-01T00:00:00Z`, in Unix seconds.
pub const MIN_UNIX_SECONDS: i64 = -377705203200;

/// The latest whole second the `time` crate represents, `9999-12-31T23:59:59Z`.
pub const MAX_UNIX_SECONDS: i64 = 253402300799;

/// The largest offset from UTC, in seconds either way, that `time::UtcOffset` accepts
/// (25:59:59).
pub const MAX_OFFSET_SECONDS: i32 = 93599;

/// The Unix timestamp of a UTC calendar date and time of day, as the `time` crate computes it.
pub uninterp spec fn unix_of_civil(
    year: int,
    month: int,
    day: int,
    hour: int,
    minute: int,
    second: int,
) -> int;

/// The UTC calendar date and time of day (year, month, day, hour, minute, second) of a Unix
/// timestamp, as the `time` crate computes it.
pub uninterp spec fn civil_of_unix(secs: int) -> (int, int, int, int, int, int);

/// A valid time of day without leap second.
pub open spec fn is_time_of_day(hour: int, minute: int, second: int) -> bool {
    0 <= hour < 24 && 0 <= minute < 60 && 0 <= second < 60
}

/// A calendar date and time of day that exist.
pub open spec fn is_civil(c: (int, int, int, int, int, int)) -> bool {
    is_calendar_date(c.0, c.1, c.2) && is_time_of_day(c.3, c.4, c.5)
}

/// Whether a Unix timestamp lies in the range the `time` crate represents.
pub open spec fn in_unix_range(secs: int) -> bool {
    MIN_UNIX_SECONDS <= secs <= MAX_UNIX_SECONDS
}

/// The Unix timestamp of a UTC date-time.
///
/// Trusted: `time::Date::from_calendar_date`, `Date::with_hms`, `PrimitiveDateTime::assume_utc`
/// and `OffsetDateTime::unix_timestamp`. For a date and time that exist (which the `requires`
/// demands, so the calls succeed) the result is named by [`unix_of_civil`]; it lies in the range
/// the crate represents because the year does.
#[verifier::external_body]
fn unix_from_civil(year: i32, month: u8, day: u8, hour: u8, minute: u8, second: u8) -> (r: i64)
    requires
        is_calendar_date(year as int, month as int, day as int),
        is_time_of_day(hour as int, minute as int, second as int),
    ensures
        r == unix_of_civil(
            year as int,
            month as int,
            day as int,
            hour as int,
            minute as int,
            second as int,
        ),
        in_unix_range(r as int),
{
    let month = match time::Month::try_from(month) {
        Ok(m) => m,
        Err(_) => return 0,
    };
    match time::Date::from_calendar_date(year, month, day) {
        Ok(date) => match date.with_hms(hour, minute, second) {
            Ok(t) => t.assume_utc().unix_timestamp(),
            Err(_) => 0,
        },
        Err(_) => 0,
    }
}

/// The ISO 8601 weekday number of the day a Unix timestamp falls on, 1 for Monday through 7
/// for Sunday.
pub open spec fn iso_weekday_of(secs: int) -> int {
    (secs / 86400 + 3) % 7 + 1
}

/// Calendar parts as integers.
pub open spec fn civil_parts(r: (i32, u8, u8, u8, u8, u8)) -> (int, int, int, int, int, int) {
    (r.0 as int, r.1 as int, r.2 as int, r.3 as int, r.4 as int, r.5 as int)
}

/// The UTC date-time of a Unix timestamp.
///
/// Trusted: `time::OffsetDateTime::from_unix_timestamp` succeeds for every timestamp in the range
/// the `requires` admits, and the accessors give the UTC calendar date and time of day, named by
/// [`civil_of_unix`]. These exist, and going back with `unix_timestamp` gives the timestamp again.
#[verifier::external_body]
fn civil_from_unix(secs: i64) -> (r: (i32, u8, u8, u8, u8, u8))
    requires
        in_unix_range(secs as int),
    ensures
        civil_parts(r) == civil_of_unix(secs as int),
        is_civil(civil_parts(r)),
        unix_of_civil(
            civil_parts(r).0,
            civil_parts(r).1,
            civil_parts(r).2,
            civil_parts(r).3,
            civil_parts(r).4,
            civil_parts(r).5,
        ) == secs,
{
    match time::OffsetDateTime::from_unix_timestamp(secs) {
        Ok(t) => (t.year(), u8::from(t.month()), t.day(), t.hour(), t.minute(), t.second()),
        Err(_) => (1970, 1, 1, 0, 0, 0),
    }
}

/// The current time in whole Unix seconds.
///
/// Trusted: `time::OffsetDateTime::now_utc` and `unix_timestamp`. The clock decides the value;
/// every `OffsetDateTime` lies in the range the crate represents.
#[verifier::external_body]
fn now_unix_seconds() -> (r: i64)
    ensures
        in_unix_range(r as int),
{
    time::OffsetDateTime::now_utc().unix_timestamp()
}

/// Whether a byte is an ASCII decimal digit.
pub open spec fn is_digit_byte(c: u8) -> bool {
    48 <= c <= 57
}

/// The number the ASCII digits `b[from..to]` write.
pub open spec fn digits_value(b: Seq<u8>, from: int, to: int) -> nat
    decreases to - from,
{
    if to <= from {
        0
    } else {
        digits_value(b, from, to - 1) * 10 + (b[to - 1] - 48) as nat
    }
}

/// Whether every byte of `b[from..to]` is a digit.
pub open spec fn all_digit_bytes(b: Seq<u8>, from: int, to: int) -> bool {
    forall|i: int| from <= i < to ==> is_digit_byte(#[trigger] b[i])
}

/// Whether `text.get(from..to)` gives a slice of the text whose bytes are `b`: in bounds and on
/// character boundaries.
pub open spec fn slice_exists(b: Seq<u8>, from: int, to: int) -> bool {
    0 <= from <= to <= b.len() && is_char_boundary(b, from) && is_char_boundary(b, to)
}

/// Why `len` digits at `from` are refused, if they are.
pub open spec fn digits_fault(b: Seq<u8>, from: int, len: int) -> Option<Seq<char>> {
    if !slice_exists(b, from, from + len) {
        Some("truncated"@)
    } else if !all_digit_bytes(b, from, from + len) {
        Some("expected digits"@)
    } else {
        None
    }
}

/// The first refusal among the six numeric fields `YYYY`, `MM`, `DD`, `HH`, `MM`, `SS`.
pub open spec fn fields_fault(b: Seq<u8>) -> Option<Seq<char>> {
    if digits_fault(b, 0, 4) is Some {
        digits_fault(b, 0, 4)
    } else if digits_fault(b, 5, 2) is Some {
        digits_fault(b, 5, 2)
    } else if digits_fault(b, 8, 2) is Some {
        digits_fault(b, 8, 2)
    } else if digits_fault(b, 11, 2) is Some {
        digits_fault(b, 11, 2)
    } else if digits_fault(b, 14, 2) is Some {
        digits_fault(b, 14, 2)
    } else {
        digits_fault(b, 17, 2)
    }
}

/// Where the run of digits that starts at `i` ends.
pub open spec fn digit_run_end(b: Seq<u8>, i: int) -> int
    decreases b.len() - i,
{
    if 0 <= i < b.len() && is_digit_byte(b[i]) {
        digit_run_end(b, i + 1)
    } else {
        i
    }
}

/// Ten to the power `n`.
pub open spec fn pow10(n: nat) -> nat
    decreases n,
{
    if n == 0 {
        1
    } else {
        10 * pow10((n - 1) as nat)
    }
}

/// Whether a fraction follows the seconds: a `.` or `,` at index 19.
pub open spec fn has_fraction(b: Seq<u8>) -> bool {
    b.len() > 19 && (b[19] == 46 || b[19] == 44)
}

/// How many fractional digits there are.
pub open spec fn fraction_len(b: Seq<u8>) -> int {
    if has_fraction(b) {
        digit_run_end(b, 20) - 20
    } else {
        0
    }
}

/// Where what follows the seconds and the fraction starts.
pub open spec fn fraction_end(b: Seq<u8>) -> int {
    if has_fraction(b) {
        digit_run_end(b, 20)
    } else {
        19
    }
}

/// The smaller of `n` and nine.
pub open spec fn at_most_nine(n: int) -> int {
    if n < 9 {
        n
    } else {
        9
    }
}

/// The nanoseconds the fraction writes: its first nine digits, scaled.
pub open spec fn fraction_nanos(b: Seq<u8>) -> nat {
    digits_value(b, 20, 20 + at_most_nine(fraction_len(b))) * pow10(
        (9 - at_most_nine(fraction_len(b))) as nat,
    )
}

/// What stands at `idx`, after the seconds and the fraction: the offset in minutes east of UTC,
/// where it ends, and whether it was written as `Z` or left out.
pub open spec fn offset_at(b: Seq<u8>, idx: int) -> Result<(int, int, bool), Seq<char>> {
    if idx >= b.len() {
        Ok((0, idx, true))
    } else if b[idx] == 90 {
        Ok((0, idx + 1, true))
    } else if b[idx] == 122 {
        Ok((0, idx + 1, false))
    } else if b[idx] == 43 || b[idx] == 45 {
        let minutes_at = if idx + 3 < b.len() && b[idx + 3] == 58 {
            idx + 4
        } else {
            idx + 3
        };
        let magnitude: int = (digits_value(b, idx + 1, idx + 3) * 60 + digits_value(
            b,
            minutes_at,
            minutes_at + 2,
        )) as int;
        if digits_fault(b, idx + 1, 2) is Some {
            Err(digits_fault(b, idx + 1, 2)->0)
        } else if digits_fault(b, minutes_at, 2) is Some {
            Err(digits_fault(b, minutes_at, 2)->0)
        } else {
            Ok(
                (
                    if b[idx] == 45 {
                        -magnitude
                    } else {
                        magnitude
                    },
                    minutes_at + 2,
                    false,
                ),
            )
        }
    } else {
        Err("unexpected trailing characters"@)
    }
}

/// The fields of a timestamp as written, before they are checked against the calendar.
pub struct DateTimeFields {
    pub year: int,
    pub month: int,
    pub day: int,
    pub hour: int,
    pub minute: int,
    pub second: int,
    pub nanos: int,
    pub frac_digits: int,
    pub canonical: bool,
    pub offset_minutes: int,
}

/// The syntax of a timestamp, on the bytes of its text: the fields it writes, or why it is not a
/// timestamp.
pub open spec fn datetime_syntax(b: Seq<u8>) -> Result<DateTimeFields, Seq<char>> {
    if b.len() < 19 {
        Err("too short for YYYY-MM-DDTHH:MM:SS"@)
    } else if b[4] != 45 || b[7] != 45 {
        Err("expected YYYY-MM-DD"@)
    } else if b[13] != 58 || b[16] != 58 {
        Err("expected HH:MM:SS"@)
    } else if !(b[10] == 84 || b[10] == 116 || b[10] == 32) {
        Err("expected 'T' between date and time"@)
    } else if fields_fault(b) is Some {
        Err(fields_fault(b)->0)
    } else if has_fraction(b) && fraction_len(b) == 0 {
        Err("fractional separator with no digits"@)
    } else {
        match offset_at(b, fraction_end(b)) {
            Err(m) => Err(m),
            Ok(o) => if o.1 != b.len() {
                Err("unexpected trailing characters"@)
            } else {
                Ok(
                    DateTimeFields {
                        year: digits_value(b, 0, 4) as int,
                        month: digits_value(b, 5, 7) as int,
                        day: digits_value(b, 8, 10) as int,
                        hour: digits_value(b, 11, 13) as int,
                        minute: digits_value(b, 14, 16) as int,
                        second: digits_value(b, 17, 19) as int,
                        nanos: fraction_nanos(b) as int,
                        frac_digits: at_most_nine(fraction_len(b)),
                        canonical: b[10] == 84 && !(has_fraction(b) && b[19] == 44)
                            && fraction_len(b) <= 9 && o.2,
                        offset_minutes: o.0,
                    },
                )
            },
        }
    }
}

/// What parsing a timestamp gives, on the bytes of its text: the instant in Unix seconds, the
/// nanoseconds, the fractional digits to write and whether the text was canonical; or why it was
/// refused.
pub open spec fn datetime_outcome(b: Seq<u8>) -> Result<(int, int, int, bool), Seq<char>> {
    match datetime_syntax(b) {
        Err(m) => Err(m),
        Ok(f) => {
            let second = if f.second == 60 {
                59
            } else {
                f.second
            };
            let unix = unix_of_civil(f.year, f.month, f.day, f.hour, f.minute, second) - 60
                * f.offset_minutes;
            if !(1 <= f.month <= 12) {
                Err("month out of range"@)
            } else if !is_calendar_date(f.year, f.month, f.day) {
                Err("no such calendar date"@)
            } else if !is_time_of_day(f.hour, f.minute, second) {
                Err("no such time of day"@)
            } else if 60 * f.offset_minutes < -MAX_OFFSET_SECONDS || 60 * f.offset_minutes
                > MAX_OFFSET_SECONDS {
                Err("offset out of range"@)
            } else if !in_unix_range(unix) {
                Err("offset out of range"@)
            } else {
                Ok((unix, f.nanos, f.frac_digits, f.canonical && f.second != 60))
            }
        },
    }
}


/// An OCPI timestamp: an instant in UTC, written as RFC 3339 with a `Z` designator.
///
/// The number of fractional digits is formatting metadata: equality compares the instant alone.
#[derive(Clone, Copy, Debug)]
pub struct DateTime {
    unix: i64,
    nanos: u32,
    frac_digits: u8,
    canonical: bool,
}

/// Why a timestamp could not be parsed.
#[derive(Clone, Debug, PartialEq, Eq)]
pub struct InvalidDateTime(String);

impl InvalidDateTime {
    /// The explanation.
    pub closed spec fn spec_message(&self) -> Seq<char> {
        self.0@
    }

    /// The message, as it is displayed.
    pub fn to_string(&self) -> (s: String)
        ensures
            s@ == "invalid OCPI DateTime: "@ + self.spec_message(),
    {
        let mut s = String::new();
        push_str(&mut s, "invalid OCPI DateTime: ");
        push_str(&mut s, self.0.as_str());
        s
    }
}

/// The refusal of `text` for the reason `m`.
fn refused(text: &str, m: &str) -> (e: InvalidDateTime)
    ensures
        e.spec_message() == m@ + " in "@ + debug_text(text@),
{
    let mut s = String::new();
    push_str(&mut s, m);
    push_str(&mut s, " in ");
    push_debug_str(&mut s, text);
    InvalidDateTime(s)
}

/// `len` digits at `from`, as `text.get(from..from + len)` and a digit check read them.
fn digits_at(text: &str, b: &[u8], from: usize, len: usize) -> (r: Result<u32, &'static str>)
    requires
        b@ == text.spec_bytes(),
        1 <= len <= 4,
        from <= b.len(),
    ensures
        match digits_fault(b@, from as int, len as int) {
            Some(m) => r matches Err(e) && e@ == m,
            None => r matches Ok(v) && v == digits_value(b@, from as int, from + len),
        },
        r matches Ok(v) ==> v < pow10(len as nat),
{
    if b.len() - from < len {
        return Err("truncated");
    }
    let to = from + len;
    if !text.is_char_boundary(from) || !text.is_char_boundary(to) {
        return Err("truncated");
    }
    let mut v: u32 = 0;
    let mut i = from;
    while i < to
        invariant
            from <= i <= to,
            to == from + len,
            to <= b.len(),
            1 <= len <= 4,
            slice_exists(b@, from as int, to as int),
            all_digit_bytes(b@, from as int, i as int),
            v == digits_value(b@, from as int, i as int),
            v < pow10((i - from) as nat),
            i - from <= 4,
        decreases to - i,
    {
        if !(48 <= b[i] && b[i] <= 57) {
            assert(!is_digit_byte(b@[i as int]));
            return Err("expected digits");
        }
        proof {
            reveal_with_fuel(pow10, 5);
            assert(pow10((i - from) as nat) <= 1000);
        }
        v = v * 10 + (b[i] - 48) as u32;
        i = i + 1;
        assert(all_digit_bytes(b@, from as int, i as int));
    }
    Ok(v)
}


/// The fraction after the `.` or `,` at index 19: where its digits end, and the nanoseconds its
/// first nine digits write.
fn scan_fraction(b: &[u8]) -> (r: (usize, u32))
    requires
        has_fraction(b@),
    ensures
        r.0 == digit_run_end(b@, 20),
        20 <= r.0 <= b.len(),
        r.1 == fraction_nanos(b@),
        r.1 < 1_000_000_000,
{
    let mut idx: usize = 20;
    let mut acc: u32 = 0;
    proof {
        reveal_with_fuel(pow10, 10);
    }
    while idx < b.len() && 48 <= b[idx] && b[idx] <= 57
        invariant
            20 <= idx <= b.len(),
            digit_run_end(b@, idx as int) == digit_run_end(b@, 20),
            acc == digits_value(b@, 20, 20 + at_most_nine(idx - 20)),
            acc < pow10(at_most_nine(idx - 20) as nat),
            pow10(8) == 100_000_000,
        decreases b.len() - idx,
    {
        if idx - 20 < 9 {
            assert(pow10(at_most_nine(idx - 20) as nat) <= 100_000_000) by {
                reveal_with_fuel(pow10, 10);
            }
            assert(pow10(at_most_nine(idx + 1 - 20) as nat) == 10 * pow10(
                at_most_nine(idx - 20) as nat,
            ));
            acc = acc * 10 + (b[idx] - 48) as u32;
        }
        idx = idx + 1;
    }
    let n = idx - 20;
    let k0: usize = if n < 9 {
        n
    } else {
        9
    };
    let mut k = k0;
    let ghost written = digits_value(b@, 20, 20 + k0);
    assert(k0 == at_most_nine(idx - 20));
    assert(pow10((k - k0) as nat) == 1);
    assert(acc == written * pow10((k - k0) as nat)) by (nonlinear_arith)
        requires
            acc == written,
            pow10((k - k0) as nat) == 1,
    ;
    while k < 9
        invariant
            k0 <= k <= 9,
            acc == written * pow10((k - k0) as nat),
            acc < pow10(k as nat),
            pow10(8) == 100_000_000,
        decreases 9 - k,
    {
        assert(pow10(k as nat) <= 100_000_000) by {
            reveal_with_fuel(pow10, 10);
        }
        let ghost before = acc;
        acc = acc * 10;
        assert(pow10((k + 1 - k0) as nat) == 10 * pow10((k - k0) as nat));
        assert(written * pow10((k + 1 - k0) as nat) == before * 10) by (nonlinear_arith)
            requires
                before == written * pow10((k - k0) as nat),
                pow10((k + 1 - k0) as nat) == 10 * pow10((k - k0) as nat),
        ;
        k = k + 1;
    }
    assert(pow10(9) == 1_000_000_000) by {
        reveal_with_fuel(pow10, 10);
    }
    (idx, acc)
}

/// What follows the seconds and the fraction, at `idx`: the offset in minutes, where it ends,
/// and whether it was `Z` or nothing.
fn scan_offset(text: &str, b: &[u8], idx: usize) -> (r: Result<(i32, usize, bool), &'static str>)
    requires
        b@ == text.spec_bytes(),
        idx <= b.len(),
    ensures
        match offset_at(b@, idx as int) {
            Err(m) => r matches Err(e) && e@ == m,
            Ok(o) => r matches Ok(v) && v.0 == o.0 && v.1 == o.1 && v.2 == o.2,
        },
        r matches Ok(v) ==> -6039 <= v.0 <= 6039,
{
    if idx == b.len() {
        return Ok((0, idx, true));
    }
    if b[idx] == 90 {
        return Ok((0, idx + 1, true));
    }
    if b[idx] == 122 {
        return Ok((0, idx + 1, false));
    }
    if b[idx] == 43 || b[idx] == 45 {
        let hours = match digits_at(text, b, idx + 1, 2) {
            Ok(v) => v,
            Err(e) => return Err(e),
        };
        let minutes_at = if b.len() - idx > 3 && b[idx + 3] == 58 {
            idx + 4
        } else if b.len() - idx > 3 {
            idx + 3
        } else {
            return Err("truncated");
        };
        let minutes = match digits_at(text, b, minutes_at, 2) {
            Ok(v) => v,
            Err(e) => return Err(e),
        };
        proof {
            reveal_with_fuel(pow10, 3);
        }
        let total = (hours * 60 + minutes) as i32;
        let signed = if b[idx] == 45 {
            -total
        } else {
            total
        };
        return Ok((signed, minutes_at + 2, false));
    }
    Err("unexpected trailing characters")
}

/// A timestamp's fields as its text writes them.
struct Written {
    year: u32,
    month: u32,
    day: u32,
    hour: u32,
    minute: u32,
    second: u32,
    nanos: u32,
    frac_digits: u8,
    canonical: bool,
    offset_minutes: i32,
}

/// Whether the fields read are the fields the syntax gives.
spec fn written_is(w: Written, f: DateTimeFields) -> bool {
    &&& w.year == f.year
    &&& w.month == f.month
    &&& w.day == f.day
    &&& w.hour == f.hour
    &&& w.minute == f.minute
    &&& w.second == f.second
    &&& w.nanos == f.nanos
    &&& w.frac_digits == f.frac_digits
    &&& w.canonical == f.canonical
    &&& w.offset_minutes == f.offset_minutes
}

/// Reads the fields of a timestamp, refusing text that is not one.
fn read_fields(text: &str, b: &[u8]) -> (r: Result<Written, &'static str>)
    requires
        b@ == text.spec_bytes(),
    ensures
        match datetime_syntax(b@) {
            Err(m) => r matches Err(e) && e@ == m,
            Ok(f) => r matches Ok(w) && written_is(w, f),
        },
        r matches Ok(w) ==> w.year <= 9999 && w.month <= 99 && w.day <= 99 && w.hour <= 99
            && w.minute <= 99 && w.second <= 99 && w.nanos < 1_000_000_000 && w.frac_digits <= 9
            && -6039 <= w.offset_minutes <= 6039,
{
    if b.len() < 19 {
        return Err("too short for YYYY-MM-DDTHH:MM:SS");
    }
    if b[4] != 45 || b[7] != 45 {
        return Err("expected YYYY-MM-DD");
    }
    if b[13] != 58 || b[16] != 58 {
        return Err("expected HH:MM:SS");
    }
    if !(b[10] == 84 || b[10] == 116 || b[10] == 32) {
        return Err("expected 'T' between date and time");
    }
    proof {
        reveal_with_fuel(digits_value, 5);
    }
    let year = match digits_at(text, b, 0, 4) {
        Ok(v) => v,
        Err(e) => return Err(e),
    };
    let month = match digits_at(text, b, 5, 2) {
        Ok(v) => v,
        Err(e) => return Err(e),
    };
    let day = match digits_at(text, b, 8, 2) {
        Ok(v) => v,
        Err(e) => return Err(e),
    };
    let hour = match digits_at(text, b, 11, 2) {
        Ok(v) => v,
        Err(e) => return Err(e),
    };
    let minute = match digits_at(text, b, 14, 2) {
        Ok(v) => v,
        Err(e) => return Err(e),
    };
    let second = match digits_at(text, b, 17, 2) {
        Ok(v) => v,
        Err(e) => return Err(e),
    };
    let mut canonical = b[10] == 84;
    let mut idx: usize = 19;
    let mut nanos: u32 = 0;
    let mut frac_digits: u8 = 0;
    if b.len() > 19 && (b[19] == 46 || b[19] == 44) {
        if b[19] == 44 {
            canonical = false;
        }
        let (end, n) = scan_fraction(b);
        if end == 20 {
            return Err("fractional separator with no digits");
        }
        let count = end - 20;
        if count > 9 {
            frac_digits = 9;
            canonical = false;
        } else {
            frac_digits = count as u8;
        }
        nanos = n;
        idx = end;
    } else {
        assert(fraction_len(b@) == 0);
        assert(digits_value(b@, 20, 20) == 0);
        assert(fraction_nanos(b@) == 0) by (nonlinear_arith)
            requires
                fraction_nanos(b@) == digits_value(b@, 20, 20) * pow10(9),
                digits_value(b@, 20, 20) == 0,
        ;
    }
    let (offset_minutes, end, plain) = match scan_offset(text, b, idx) {
        Ok(o) => o,
        Err(e) => return Err(e),
    };
    if end != b.len() {
        return Err("unexpected trailing characters");
    }
    Ok(
        Written {
            year,
            month,
            day,
            hour,
            minute,
            second,
            nanos,
            frac_digits,
            canonical: canonical && plain,
            offset_minutes,
        },
    )
}


/// The fewest fractional digits, of none, three, six or nine, that write `nanos` exactly.
pub open spec fn shortest_digits_for(nanos: int) -> int {
    if nanos == 0 {
        0
    } else if nanos % 1_000_000 == 0 {
        3
    } else if nanos % 1_000 == 0 {
        6
    } else {
        9
    }
}

fn shortest_frac_digits(nanos: u32) -> (r: u8)
    ensures
        r == shortest_digits_for(nanos as int),
{
    if nanos == 0 {
        0
    } else if nanos % 1_000_000 == 0 {
        3
    } else if nanos % 1_000 == 0 {
        6
    } else {
        9
    }
}

/// A timestamp as it is written: `YYYY-MM-DDTHH:MM:SS`, the first `frac_digits` digits of the
/// nine-digit nanoseconds after a `.` when there are any, and `Z`.
pub open spec fn datetime_text(c: (int, int, int, int, int, int), nanos: nat, frac_digits: nat) -> Seq<
    char,
> {
    signed_padded(c.0, 4) + "-"@ + dec_padded(c.1 as nat, 2) + "-"@ + dec_padded(c.2 as nat, 2)
        + "T"@ + dec_padded(c.3 as nat, 2) + ":"@ + dec_padded(c.4 as nat, 2) + ":"@ + dec_padded(
        c.5 as nat,
        2,
    ) + (if frac_digits > 0 {
        "."@ + dec_padded(nanos, 9).subrange(0, frac_digits as int)
    } else {
        Seq::empty()
    }) + "Z"@
}

/// The warning a timestamp that was not in one of the six allowed forms is reported with.
pub const NONCANONICAL: &'static str = "timestamp was not written in one of the six forms OCPI allows (an explicit UTC offset, a lower-case 'z' or a space separator was used); note that the spec states \"+00:00 is not the same as UTC\"";

/// The text of that warning.
pub open spec fn noncanonical_message() -> Seq<char> {
    NONCANONICAL@
}

/// A number below `10^width`, for `width` of at least one, takes at most `width` digits.
pub proof fn lemma_dec_digits_fit(n: nat, width: nat)
    requires
        width >= 1,
        n < pow10(width),
    ensures
        dec_digits(n).len() <= width,
    decreases n,
{
    if n >= 10 {
        assert(width >= 2) by {
            if width == 1 {
                assert(pow10(1) == 10) by {
                    reveal_with_fuel(pow10, 2);
                }
            }
        }
        assert(n / 10 < pow10((width - 1) as nat)) by (nonlinear_arith)
            requires
                n < pow10(width),
                pow10(width) == 10 * pow10((width - 1) as nat),
        ;
        lemma_dec_digits_fit(n / 10, (width - 1) as nat);
    }
}

/// `n` below `10^width` padded to `width` digits is exactly `width` long.
pub proof fn lemma_dec_padded_len(n: nat, width: nat)
    requires
        width >= 1,
        n < pow10(width),
    ensures
        dec_padded(n, width).len() == width,
{
    lemma_dec_digits_fit(n, width);
}

impl DateTime {
    /// The instant, in seconds since the Unix epoch.
    pub closed spec fn spec_unix(self) -> int {
        self.unix as int
    }

    /// The nanoseconds within the second.
    pub closed spec fn spec_nanos(self) -> int {
        self.nanos as int
    }

    /// The instant in nanoseconds since the Unix epoch: what equality and order compare.
    pub open spec fn instant(self) -> int {
        self.spec_unix() * 1_000_000_000 + self.spec_nanos()
    }

    /// How many fractional digits the value is written with.
    pub closed spec fn spec_frac_digits(self) -> int {
        self.frac_digits as int
    }

    /// Whether the text the value came from was in one of the six forms the specification allows.
    pub closed spec fn spec_canonical(self) -> bool {
        self.canonical
    }

    /// A value every constructor gives: an instant the `time` crate represents, whose UTC
    /// calendar date and time exist and lead back to it, and at most nine fractional digits.
    #[verifier::type_invariant]
    pub closed spec fn wf(self) -> bool {
        &&& in_unix_range(self.unix as int)
        &&& self.nanos < 1_000_000_000
        &&& self.frac_digits <= 9
        &&& is_civil(civil_of_unix(self.unix as int))
        &&& unix_of_civil(
            civil_of_unix(self.unix as int).0,
            civil_of_unix(self.unix as int).1,
            civil_of_unix(self.unix as int).2,
            civil_of_unix(self.unix as int).3,
            civil_of_unix(self.unix as int).4,
            civil_of_unix(self.unix as int).5,
        ) == self.unix
    }

    /// The text `to_string` writes.
    pub open spec fn text(self) -> Seq<char> {
        datetime_text(
            civil_of_unix(self.spec_unix()),
            self.spec_nanos() as nat,
            self.spec_frac_digits() as nat,
        )
    }

    /// A well-formed value for an instant in range.
    fn at(unix: i64, nanos: u32, frac_digits: u8, canonical: bool) -> (d: Self)
        requires
            in_unix_range(unix as int),
            nanos < 1_000_000_000,
            frac_digits <= 9,
        ensures
            d.wf(),
            d.spec_unix() == unix,
            d.spec_nanos() == nanos,
            d.spec_frac_digits() == frac_digits,
            d.spec_canonical() == canonical,
    {
        let _ = civil_from_unix(unix);
        DateTime { unix, nanos, frac_digits, canonical }
    }

    /// The current time, with second precision.
    pub fn now() -> (d: Self)
        ensures
            d.wf(),
            d.spec_nanos() == 0,
            d.spec_frac_digits() == 0,
            d.spec_canonical(),
    {
        let secs = now_unix_seconds();
        Self::at(secs, 0, 0, true)
    }

    /// A timestamp from seconds since the Unix epoch and nanoseconds, written with the fewest
    /// fractional digits (none, three, six or nine) that represent it exactly.
    pub fn from_utc(unix_seconds: i64, nanosecond: u32) -> (res: Result<Self, InvalidDateTime>)
        ensures
            res is Ok <==> in_unix_range(unix_seconds as int) && nanosecond < 1_000_000_000,
            res matches Ok(d) ==> d.wf() && d.spec_unix() == unix_seconds && d.spec_nanos()
                == nanosecond && d.spec_frac_digits() == shortest_digits_for(nanosecond as int)
                && d.spec_canonical(),
            res matches Err(e) ==> e.spec_message() == "timestamp out of range"@,
    {
        if unix_seconds < MIN_UNIX_SECONDS || unix_seconds > MAX_UNIX_SECONDS || nanosecond
            >= 1_000_000_000 {
            return Err(InvalidDateTime(String::from_str("timestamp out of range")));
        }
        let digits = shortest_frac_digits(nanosecond);
        Ok(Self::at(unix_seconds, nanosecond, digits, true))
    }

    /// Whether this instant is strictly earlier than `other`.
    pub fn is_before(&self, other: &DateTime) -> (r: bool)
        ensures
            r == (self.instant() < other.instant()),
    {
        proof {
            use_type_invariant(self);
            use_type_invariant(other);
        }
        self.unix < other.unix || (self.unix == other.unix && self.nanos < other.nanos)
    }

    /// Seconds since the Unix epoch.
    pub fn unix_timestamp(self) -> (r: i64)
        ensures
            r == self.spec_unix(),
            in_unix_range(r as int),
    {
        proof {
            use_type_invariant(&self);
        }
        self.unix
    }

    /// The UTC calendar date and time of day: year, month, day, hour, minute, second.
    pub fn civil(self) -> (r: (i32, u8, u8, u8, u8, u8))
        ensures
            civil_parts(r) == civil_of_unix(self.spec_unix()),
            is_civil(civil_parts(r)),
    {
        proof {
            use_type_invariant(&self);
        }
        civil_from_unix(self.unix)
    }

    /// The ISO 8601 weekday number, 1 for Monday through 7 for Sunday: the Unix epoch fell on a
    /// Thursday, and the days repeat every seven.
    pub fn iso_weekday(self) -> (r: u8)
        ensures
            r == iso_weekday_of(self.spec_unix()),
            1 <= r <= 7,
    {
        proof {
            use_type_invariant(&self);
        }
        let days = if self.unix >= 0 {
            self.unix / 86400
        } else {
            -((-self.unix + 86399) / 86400)
        };
        let m = (days + 3) % 7;
        let wd = if m < 0 {
            m + 7
        } else {
            m
        };
        proof {
            assert(days == self.unix as int / 86400) by (nonlinear_arith)
                requires
                    self.unix >= 0 ==> days == self.unix / 86400,
                    self.unix < 0 ==> days == -((-self.unix + 86399) / 86400),
            {
            }
        }
        (wd + 1) as u8
    }

    /// The nanoseconds within the second.
    pub fn nanosecond(self) -> (r: u32)
        ensures
            r == self.spec_nanos(),
            r < 1_000_000_000,
    {
        proof {
            use_type_invariant(&self);
        }
        self.nanos
    }

    /// A timestamp from whole seconds since the Unix epoch.
    pub fn from_unix_timestamp(secs: i64) -> (res: Result<Self, InvalidDateTime>)
        ensures
            res is Ok <==> in_unix_range(secs as int),
            res matches Ok(d) ==> d.wf() && d.spec_unix() == secs && d.spec_nanos() == 0
                && d.spec_frac_digits() == 0 && d.spec_canonical(),
            res matches Err(e) ==> e.spec_message() == "timestamp out of range"@,
    {
        Self::from_utc(secs, 0)
    }

    /// Whether the value was written in one of the six forms the specification allows.
    pub fn is_canonical(self) -> (r: bool)
        ensures
            r == self.spec_canonical(),
    {
        self.canonical
    }

    /// A copy that will be written with exactly `digits` fractional digits, at most nine.
    pub fn with_fractional_digits(self, digits: u8) -> (d: Self)
        ensures
            d.wf(),
            d.spec_unix() == self.spec_unix(),
            d.spec_nanos() == self.spec_nanos(),
            d.spec_canonical() == self.spec_canonical(),
            d.spec_frac_digits() == if digits > 9 {
                9
            } else {
                digits as int
            },
    {
        proof {
            use_type_invariant(&self);
        }
        DateTime {
            frac_digits: if digits > 9 {
                9
            } else {
                digits
            },
            ..self
        }
    }

    /// How many fractional digits the value is written with.
    pub fn fractional_digits(self) -> (r: u8)
        ensures
            r == self.spec_frac_digits(),
    {
        self.frac_digits
    }

    /// Parses one of the forms OCPI allows, or a tolerated deviation.
    pub fn parse(text: &str) -> (res: Result<Self, InvalidDateTime>)
        ensures
            match datetime_outcome(text.spec_bytes()) {
                Ok(p) => res matches Ok(d) && d.wf() && d.spec_unix() == p.0 && d.spec_nanos()
                    == p.1 && d.spec_frac_digits() == p.2 && d.spec_canonical() == p.3,
                Err(m) => res matches Err(e) && e.spec_message() == m + " in "@ + debug_text(
                    text@,
                ),
            },
    {
        let b = text.as_bytes();
        let w = match read_fields(text, b) {
            Ok(w) => w,
            Err(m) => return Err(refused(text, m)),
        };
        let second = if w.second == 60 {
            59
        } else {
            w.second
        };
        if !(1 <= w.month && w.month <= 12) {
            return Err(refused(text, "month out of range"));
        }
        if !calendar_date_exists(w.year as i32, w.month as u8, w.day as u8) {
            return Err(refused(text, "no such calendar date"));
        }
        if !(w.hour < 24 && w.minute < 60 && second < 60) {
            return Err(refused(text, "no such time of day"));
        }
        let offset_seconds: i32 = 60 * w.offset_minutes;
        if offset_seconds < -MAX_OFFSET_SECONDS || offset_seconds > MAX_OFFSET_SECONDS {
            return Err(refused(text, "offset out of range"));
        }
        let local = unix_from_civil(
            w.year as i32,
            w.month as u8,
            w.day as u8,
            w.hour as u8,
            w.minute as u8,
            second as u8,
        );
        let unix: i64 = local - offset_seconds as i64;
        if unix < MIN_UNIX_SECONDS || unix > MAX_UNIX_SECONDS {
            return Err(refused(text, "offset out of range"));
        }
        Ok(Self::at(unix, w.nanos, w.frac_digits, w.canonical && w.second != 60))
    }

    /// The canonical text: RFC 3339 in UTC with a `Z`, with the value's fractional digits.
    pub fn to_string(self) -> (s: String)
        ensures
            s@ == self.text(),
    {
        proof {
            use_type_invariant(&self);
        }
        let c = civil_from_unix(self.unix);
        let mut s = String::new();
        push_signed_padded(&mut s, c.0 as i64, 4);
        push_str(&mut s, "-");
        push_decimal_padded(&mut s, c.1 as u64, 2);
        push_str(&mut s, "-");
        push_decimal_padded(&mut s, c.2 as u64, 2);
        push_str(&mut s, "T");
        push_decimal_padded(&mut s, c.3 as u64, 2);
        push_str(&mut s, ":");
        push_decimal_padded(&mut s, c.4 as u64, 2);
        push_str(&mut s, ":");
        push_decimal_padded(&mut s, c.5 as u64, 2);
        if self.frac_digits > 0 {
            let mut nine = String::new();
            push_decimal_padded(&mut nine, self.nanos as u64, 9);
            let digits = chars_of(nine.as_str());
            proof {
                assert(pow10(9) == 1_000_000_000) by {
                    reveal_with_fuel(pow10, 10);
                }
                lemma_dec_padded_len(self.nanos as nat, 9);
            }
            let shown = string_from_chars(&digits, 0, self.frac_digits as usize);
            push_str(&mut s, ".");
            push_str(&mut s, shown.as_str());
        }
        push_str(&mut s, "Z");
        s
    }
}

impl PartialEq for DateTime {
    fn eq(&self, other: &Self) -> (r: bool) {
        self.unix == other.unix && self.nanos == other.nanos
    }
}

impl vstd::std_specs::cmp::PartialEqSpecImpl for DateTime {
    open spec fn obeys_eq_spec() -> bool {
        true
    }

    open spec fn eq_spec(&self, other: &Self) -> bool {
        self.spec_unix() == other.spec_unix() && self.spec_nanos() == other.spec_nanos()
    }
}

impl Eq for DateTime {
}

impl core::str::FromStr for DateTime {
    type Err = InvalidDateTime;

    fn from_str(s: &str) -> (res: Result<Self, Self::Err>)
        ensures
            match datetime_outcome(s.spec_bytes()) {
                Ok(p) => res matches Ok(d) && d.wf() && d.spec_unix() == p.0 && d.spec_nanos()
                    == p.1 && d.spec_frac_digits() == p.2 && d.spec_canonical() == p.3,
                Err(m) => res matches Err(e) && e.spec_message() == m + " in "@ + debug_text(
                    s@,
                ),
            },
    {
        Self::parse(s)
    }
}

impl Validate for DateTime {
    open spec fn violations(&self) -> Seq<ViolationView> {
        if self.spec_canonical() {
            Seq::empty()
        } else {
            seq![(Seq::empty(), ViolationCode::Inconsistent, noncanonical_message())]
        }
    }

    fn validate_in(&self, v: &mut Validator)
        ensures
            final(v)@ == if self.spec_canonical() {
                old(v)@
            } else {
                old(v)@.push((Seq::empty(), ViolationCode::Inconsistent, noncanonical_message()))
            },
    {
        if !self.canonical {
            v.report(ViolationCode::Inconsistent, String::from_str(NONCANONICAL));
        }
    }
}


/// The number the decimal digit characters of `s` write.
pub open spec fn chars_value(s: Seq<char>) -> nat
    decreases s.len(),
{
    if s.len() == 0 {
        0
    } else {
        chars_value(s.drop_last()) * 10 + (s.last() as int - 48) as nat
    }
}

/// Whether every character of `s` is an ASCII digit.
pub open spec fn all_digit_chars(s: Seq<char>) -> bool {
    forall|i: int| 0 <= i < s.len() ==> '0' <= #[trigger] s[i] <= '9'
}

/// Ten to a sum is the product of the powers.
pub proof fn lemma_pow10_add(a: nat, b: nat)
    ensures
        pow10(a + b) == pow10(a) * pow10(b),
    decreases a,
{
    if a > 0 {
        let a1 = (a - 1) as nat;
        lemma_pow10_add(a1, b);
        assert(pow10(a1 + b) == pow10(a1) * pow10(b));
        assert(a + b == (a1 + b) + 1);
        assert(pow10(a + b) == 10 * pow10(a1 + b));
        assert(pow10(a) == 10 * pow10(a1));
        let x = pow10(a1);
        let y = pow10(b);
        assert(10 * (x * y) == (10 * x) * y) by (nonlinear_arith);
    } else {
        assert(pow10(0) == 1);
        let y = pow10(b);
        assert(y == 1 * y) by (nonlinear_arith);
    }
}

/// Ten to any power is positive.
pub proof fn lemma_pow10_positive(a: nat)
    ensures
        pow10(a) >= 1,
    decreases a,
{
    if a > 0 {
        lemma_pow10_positive((a - 1) as nat);
    }
}

/// Padding to `w` digits is padding the tenth to `w - 1` digits, then the last digit.
proof fn lemma_dec_padded_step(n: nat, w: nat)
    requires
        w >= 2,
    ensures
        dec_padded(n, w) =~= dec_padded(n / 10, (w - 1) as nat).push(digit_char(n % 10)),
{
    if n < 10 {
        assert(dec_digits(0) =~= seq![digit_char(0)]);
        assert(zeros(w - 2) + seq!['0'] =~= zeros(w - 1));
    }
}

/// `n` below `10^w` padded to `w` digits: `w` digit characters that write `n`.
proof fn lemma_dec_padded_digits(n: nat, w: nat)
    requires
        w >= 1,
        n < pow10(w),
    ensures
        dec_padded(n, w).len() == w,
        all_digit_chars(dec_padded(n, w)),
        chars_value(dec_padded(n, w)) == n,
    decreases w,
{
    lemma_dec_padded_len(n, w);
    if w == 1 {
        assert(pow10(1) == 10) by {
            reveal_with_fuel(pow10, 2);
        }
        assert(dec_padded(n, w) =~= seq![digit_char(n)]);
        assert(dec_padded(n, w).drop_last() =~= Seq::<char>::empty());
        assert(digit_char(n) as int == 48 + n);
        assert(chars_value(dec_padded(n, w)) == n) by {
            reveal_with_fuel(chars_value, 2);
        }
    } else {
        lemma_dec_padded_step(n, w);
        assert(n / 10 < pow10((w - 1) as nat)) by (nonlinear_arith)
            requires
                n < pow10(w),
                pow10(w) == 10 * pow10((w - 1) as nat),
        ;
        lemma_dec_padded_digits(n / 10, (w - 1) as nat);
        assert(dec_padded(n, w).drop_last() =~= dec_padded(n / 10, (w - 1) as nat));
        assert(digit_char(n % 10) as int == 48 + n % 10);
        assert((n / 10) * 10 + n % 10 == n) by (nonlinear_arith);
        assert(all_digit_chars(dec_padded(n, w))) by {
            assert forall|i: int| 0 <= i < dec_padded(n, w).len() implies '0' <= #[trigger] dec_padded(
                n,
                w,
            )[i] <= '9' by {
                if i < w - 1 {
                    assert(dec_padded(n, w)[i] == dec_padded(n / 10, (w - 1) as nat)[i]);
                }
            }
        }
    }
}

/// Bytes that copy the digit characters `s` at `from` are digits that write the same number.
proof fn lemma_bytes_value(b: Seq<u8>, from: int, s: Seq<char>)
    requires
        0 <= from,
        from + s.len() <= b.len(),
        forall|i: int| 0 <= i < s.len() ==> b[from + i] == #[trigger] s[i] as u8,
        all_digit_chars(s),
    ensures
        all_digit_bytes(b, from, from + s.len()),
        digits_value(b, from, from + s.len()) == chars_value(s),
    decreases s.len(),
{
    if s.len() > 0 {
        let t = s.drop_last();
        assert forall|i: int| 0 <= i < t.len() implies b[from + i] == #[trigger] t[i] as u8 by {
            assert(t[i] == s[i]);
        }
        assert(all_digit_chars(t)) by {
            assert forall|i: int| 0 <= i < t.len() implies '0' <= #[trigger] t[i] <= '9' by {
                assert(t[i] == s[i]);
            }
        }
        lemma_bytes_value(b, from, t);
        assert(b[from + s.len() - 1] == s[s.len() - 1] as u8);
        assert forall|i: int| from <= i < from + s.len() implies is_digit_byte(#[trigger] b[i]) by {
            assert(b[from + (i - from)] == s[i - from] as u8);
        }
    }
}

/// The first `k` of `w` padded digits are the padded digits of the number divided by
/// `10^(w - k)`.
proof fn lemma_padded_prefix(n: nat, w: nat, k: nat)
    requires
        1 <= k <= w,
        n < pow10(w),
    ensures
        dec_padded(n, w).subrange(0, k as int) =~= dec_padded(n / pow10((w - k) as nat), k),
    decreases w - k,
{
    lemma_dec_padded_len(n, w);
    if k == w {
        assert(pow10(0) == 1);
        assert(n / 1 == n);
    } else {
        lemma_dec_padded_step(n, w);
        assert(n / 10 < pow10((w - 1) as nat)) by (nonlinear_arith)
            requires
                n < pow10(w),
                pow10(w) == 10 * pow10((w - 1) as nat),
        ;
        lemma_padded_prefix(n / 10, (w - 1) as nat, k);
        lemma_pow10_positive((w - 1 - k) as nat);
        vstd::arithmetic::div_mod::lemma_div_denominator(
            n as int,
            10,
            pow10((w - 1 - k) as nat) as int,
        );
        assert(pow10((w - k) as nat) == 10 * pow10((w - 1 - k) as nat));
        lemma_dec_padded_len(n / 10, (w - 1) as nat);
        assert(dec_padded(n, w).subrange(0, k as int) =~= dec_padded(n / 10, (w - 1) as nat).subrange(
            0,
            k as int,
        ));
    }
}

/// Where a run of digits ends, when a non-digit follows it.
proof fn lemma_run_end(b: Seq<u8>, i: int, e: int)
    requires
        0 <= i <= e < b.len(),
        all_digit_bytes(b, i, e),
        !is_digit_byte(b[e]),
    ensures
        digit_run_end(b, i) == e,
    decreases e - i,
{
    if i < e {
        assert(is_digit_byte(b[i]));
        lemma_run_end(b, i + 1, e);
    }
}


/// The fields of a written timestamp stand where the reader looks for them.
proof fn lemma_head_layout(
    y: Seq<char>,
    mo: Seq<char>,
    da: Seq<char>,
    h: Seq<char>,
    mi: Seq<char>,
    se: Seq<char>,
) -> (head: Seq<char>)
    requires
        y.len() == 4,
        mo.len() == 2,
        da.len() == 2,
        h.len() == 2,
        mi.len() == 2,
        se.len() == 2,
    ensures
        head == y + "-"@ + mo + "-"@ + da + "T"@ + h + ":"@ + mi + ":"@ + se,
        head.len() == 19,
        forall|i: int| 0 <= i < 4 ==> head[i] == #[trigger] y[i],
        forall|i: int| 0 <= i < 2 ==> head[5 + i] == #[trigger] mo[i],
        forall|i: int| 0 <= i < 2 ==> head[8 + i] == #[trigger] da[i],
        forall|i: int| 0 <= i < 2 ==> head[11 + i] == #[trigger] h[i],
        forall|i: int| 0 <= i < 2 ==> head[14 + i] == #[trigger] mi[i],
        forall|i: int| 0 <= i < 2 ==> head[17 + i] == #[trigger] se[i],
        head[4] == '-',
        head[7] == '-',
        head[10] == 'T',
        head[13] == ':',
        head[16] == ':',
{
    reveal_strlit("-");
    reveal_strlit("T");
    reveal_strlit(":");
    y + "-"@ + mo + "-"@ + da + "T"@ + h + ":"@ + mi + ":"@ + se
}

/// The digits a written timestamp shows for its fraction: the nanoseconds divided by
/// `10^(9 - k)`, padded to `k` digits.
pub open spec fn shown_fraction(n: nat, k: nat) -> Seq<char> {
    if k > 0 {
        dec_padded(n / pow10((9 - k) as nat), k)
    } else {
        Seq::empty()
    }
}

/// The fraction a timestamp is written with: `k` digits that, scaled by `10^(9 - k)`, give back
/// the nanoseconds when those are a multiple of it.
proof fn lemma_fraction_digits(n: nat, k: nat)
    requires
        n < 1_000_000_000,
        k <= 9,
        (n as int) % (pow10((9 - k) as nat) as int) == 0,
    ensures
        shown_fraction(n, k).len() == k,
        all_digit_chars(shown_fraction(n, k)),
        chars_value(shown_fraction(n, k)) * pow10((9 - k) as nat) == n,
        k > 0 ==> dec_padded(n, 9).subrange(0, k as int) == shown_fraction(n, k),
{
    assert(pow10(9) == 1_000_000_000) by {
        reveal_with_fuel(pow10, 10);
    }
    let p = pow10((9 - k) as nat);
    lemma_pow10_positive((9 - k) as nat);
    let shown = n / p;
    let f = shown_fraction(n, k);
    vstd::arithmetic::div_mod::lemma_fundamental_div_mod(n as int, p as int);
    assert(n == p * shown);
    if k > 0 {
        lemma_pow10_add(k, (9 - k) as nat);
        assert(shown < pow10(k)) by (nonlinear_arith)
            requires
                n == p * shown,
                n < pow10(k) * p,
                p >= 1,
        ;
        lemma_padded_prefix(n, 9, k);
        lemma_dec_padded_digits(shown, k);
        assert(chars_value(f) * p == n) by (nonlinear_arith)
            requires
                chars_value(f) == shown,
                n == p * shown,
        ;
    } else {
        assert(n == 0) by (nonlinear_arith)
            requires
                n == p * shown,
                p == 1_000_000_000,
                n < 1_000_000_000,
        ;
        assert(chars_value(f) == 0);
        assert(chars_value(f) * p == n) by (nonlinear_arith)
            requires
                chars_value(f) == 0,
                n == 0,
        ;
    }
}

/// The text of a timestamp assembled from its pieces.
pub open spec fn assembled(
    y: Seq<char>,
    mo: Seq<char>,
    da: Seq<char>,
    h: Seq<char>,
    mi: Seq<char>,
    se: Seq<char>,
    f: Seq<char>,
) -> Seq<char> {
    y + "-"@ + mo + "-"@ + da + "T"@ + h + ":"@ + mi + ":"@ + se + (if f.len() > 0 {
        "."@ + f
    } else {
        Seq::empty()
    }) + "Z"@
}

/// Where each character of an assembled timestamp stands.
proof fn lemma_assembled_layout(
    y: Seq<char>,
    mo: Seq<char>,
    da: Seq<char>,
    h: Seq<char>,
    mi: Seq<char>,
    se: Seq<char>,
    f: Seq<char>,
)
    requires
        y.len() == 4,
        mo.len() == 2,
        da.len() == 2,
        h.len() == 2,
        mi.len() == 2,
        se.len() == 2,
        all_digit_chars(y),
        all_digit_chars(mo),
        all_digit_chars(da),
        all_digit_chars(h),
        all_digit_chars(mi),
        all_digit_chars(se),
        all_digit_chars(f),
    ensures
        ({
            let t = assembled(y, mo, da, h, mi, se, f);
            &&& t.len() == 20 + (if f.len() > 0 {
                f.len() + 1
            } else {
                0
            })
            &&& forall|i: int| 0 <= i < 4 ==> t[i] == #[trigger] y[i]
            &&& forall|i: int| 0 <= i < 2 ==> t[5 + i] == #[trigger] mo[i]
            &&& forall|i: int| 0 <= i < 2 ==> t[8 + i] == #[trigger] da[i]
            &&& forall|i: int| 0 <= i < 2 ==> t[11 + i] == #[trigger] h[i]
            &&& forall|i: int| 0 <= i < 2 ==> t[14 + i] == #[trigger] mi[i]
            &&& forall|i: int| 0 <= i < 2 ==> t[17 + i] == #[trigger] se[i]
            &&& forall|i: int| 0 <= i < f.len() ==> t[20 + i] == #[trigger] f[i]
            &&& t[4] == '-' && t[7] == '-' && t[10] == 'T' && t[13] == ':' && t[16] == ':'
            &&& t[19] == if f.len() > 0 {
                '.'
            } else {
                'Z'
            }
            &&& t[t.len() - 1] == 'Z'
            &&& vstd::utf8::is_ascii_chars(t)
        }),
{
    let head = lemma_head_layout(y, mo, da, h, mi, se);
    reveal_strlit(".");
    reveal_strlit("Z");
    let frac: Seq<char> = if f.len() > 0 {
        "."@ + f
    } else {
        Seq::empty()
    };
    let t = assembled(y, mo, da, h, mi, se, f);
    assert(t == head + frac + "Z"@);
    assert forall|i: int| 0 <= i < f.len() implies t[20 + i] == #[trigger] f[i] by {
        assert(t[20 + i] == frac[1 + i]);
    }
    assert forall|i: int| 0 <= i < t.len() implies '\0' <= #[trigger] t[i] <= '\u{7f}' by {
        if i < 19 {
            assert(t[i] == head[i]);
            if i < 4 {
                assert(head[i] == y[i]);
            } else if 5 <= i < 7 {
                assert(head[5 + (i - 5)] == mo[i - 5]);
            } else if 8 <= i < 10 {
                assert(head[8 + (i - 8)] == da[i - 8]);
            } else if 11 <= i < 13 {
                assert(head[11 + (i - 11)] == h[i - 11]);
            } else if 14 <= i < 16 {
                assert(head[14 + (i - 14)] == mi[i - 14]);
            } else if 17 <= i < 19 {
                assert(head[17 + (i - 17)] == se[i - 17]);
            }
        } else if 20 <= i < 20 + f.len() {
            assert(t[20 + (i - 20)] == f[i - 20]);
        }
    }
}

/// A written timestamp is the assembly of its padded fields and its shown fraction.
proof fn lemma_text_assembled(d: DateTime)
    requires
        d.wf(),
        civil_of_unix(d.spec_unix()).0 >= 0,
        d.spec_nanos() % (pow10((9 - d.spec_frac_digits()) as nat) as int) == 0,
    ensures
        ({
            let c = civil_of_unix(d.spec_unix());
            d.text() == assembled(
                dec_padded(c.0 as nat, 4),
                dec_padded(c.1 as nat, 2),
                dec_padded(c.2 as nat, 2),
                dec_padded(c.3 as nat, 2),
                dec_padded(c.4 as nat, 2),
                dec_padded(c.5 as nat, 2),
                shown_fraction(d.spec_nanos() as nat, d.spec_frac_digits() as nat),
            )
        }),
{
    let n = d.spec_nanos() as nat;
    let k = d.spec_frac_digits() as nat;
    lemma_fraction_digits(n, k);
}

/// Bytes that copy a written timestamp's characters read back as its fields.
proof fn lemma_text_bytes(d: DateTime)
    requires
        d.wf(),
        civil_of_unix(d.spec_unix()).0 >= 0,
        d.spec_nanos() % (pow10((9 - d.spec_frac_digits()) as nat) as int) == 0,
    ensures
        ({
            let c = civil_of_unix(d.spec_unix());
            let k = d.spec_frac_digits() as nat;
            let b = encode_utf8(d.text());
            &&& b.len() == 20 + (if k > 0 {
                k + 1
            } else {
                0
            })
            &&& forall|i: int| 0 <= i <= b.len() ==> is_char_boundary(b, i)
            &&& b[4] == 45 && b[7] == 45 && b[10] == 84 && b[13] == 58 && b[16] == 58
            &&& all_digit_bytes(b, 0, 4) && digits_value(b, 0, 4) == c.0
            &&& all_digit_bytes(b, 5, 7) && digits_value(b, 5, 7) == c.1
            &&& all_digit_bytes(b, 8, 10) && digits_value(b, 8, 10) == c.2
            &&& all_digit_bytes(b, 11, 13) && digits_value(b, 11, 13) == c.3
            &&& all_digit_bytes(b, 14, 16) && digits_value(b, 14, 16) == c.4
            &&& all_digit_bytes(b, 17, 19) && digits_value(b, 17, 19) == c.5
            &&& b[19] == if k > 0 {
                46u8
            } else {
                90u8
            }
            &&& all_digit_bytes(b, 20, 20 + k as int)
            &&& digits_value(b, 20, 20 + k as int) * pow10((9 - k) as nat) == d.spec_nanos()
            &&& b[b.len() - 1] == 90
        }),
{
    let c = civil_of_unix(d.spec_unix());
    let k = d.spec_frac_digits() as nat;
    let t = d.text();
    let f = shown_fraction(d.spec_nanos() as nat, k);
    assert(pow10(2) == 100 && pow10(4) == 10000) by {
        reveal_with_fuel(pow10, 10);
    }
    lemma_dec_padded_digits(c.0 as nat, 4);
    lemma_dec_padded_digits(c.1 as nat, 2);
    lemma_dec_padded_digits(c.2 as nat, 2);
    lemma_dec_padded_digits(c.3 as nat, 2);
    lemma_dec_padded_digits(c.4 as nat, 2);
    lemma_dec_padded_digits(c.5 as nat, 2);
    lemma_fraction_digits(d.spec_nanos() as nat, k);
    lemma_text_assembled(d);
    lemma_assembled_layout(
        dec_padded(c.0 as nat, 4),
        dec_padded(c.1 as nat, 2),
        dec_padded(c.2 as nat, 2),
        dec_padded(c.3 as nat, 2),
        dec_padded(c.4 as nat, 2),
        dec_padded(c.5 as nat, 2),
        f,
    );
    let b = encode_utf8(t);
    vstd::utf8::is_ascii_chars_encode_utf8(t);
    vstd::utf8::encode_utf8_valid_utf8(t);
    vstd::utf8::is_char_boundary_start_end_of_seq(b);
    assert forall|i: int| 0 <= i <= b.len() implies is_char_boundary(b, i) by {
        if i < b.len() {
            assert(b[i] == t[i] as u8);
            vstd::utf8::is_char_boundary_iff_not_is_continuation_byte(b, i);
        }
    }
    let y = dec_padded(c.0 as nat, 4);
    assert forall|i: int| 0 <= i < 4 implies b[0 + i] == #[trigger] y[i] as u8 by {
        assert(b[i] == t[i] as u8);
    }
    lemma_bytes_value(b, 0, y);
    let mo = dec_padded(c.1 as nat, 2);
    assert forall|i: int| 0 <= i < 2 implies b[5 + i] == #[trigger] mo[i] as u8 by {
        assert(b[5 + i] == t[5 + i] as u8);
    }
    lemma_bytes_value(b, 5, mo);
    let da = dec_padded(c.2 as nat, 2);
    assert forall|i: int| 0 <= i < 2 implies b[8 + i] == #[trigger] da[i] as u8 by {
        assert(b[8 + i] == t[8 + i] as u8);
    }
    lemma_bytes_value(b, 8, da);
    let h = dec_padded(c.3 as nat, 2);
    assert forall|i: int| 0 <= i < 2 implies b[11 + i] == #[trigger] h[i] as u8 by {
        assert(b[11 + i] == t[11 + i] as u8);
    }
    lemma_bytes_value(b, 11, h);
    let mi = dec_padded(c.4 as nat, 2);
    assert forall|i: int| 0 <= i < 2 implies b[14 + i] == #[trigger] mi[i] as u8 by {
        assert(b[14 + i] == t[14 + i] as u8);
    }
    lemma_bytes_value(b, 14, mi);
    let se = dec_padded(c.5 as nat, 2);
    assert forall|i: int| 0 <= i < 2 implies b[17 + i] == #[trigger] se[i] as u8 by {
        assert(b[17 + i] == t[17 + i] as u8);
    }
    lemma_bytes_value(b, 17, se);
    assert forall|i: int| 0 <= i < f.len() implies b[20 + i] == #[trigger] f[i] as u8 by {
        assert(b[20 + i] == t[20 + i] as u8);
    }
    lemma_bytes_value(b, 20, f);
    assert(b[4] == t[4] as u8 && b[7] == t[7] as u8 && b[10] == t[10] as u8);
    assert(b[13] == t[13] as u8 && b[16] == t[16] as u8 && b[19] == t[19] as u8);
    assert(b[b.len() - 1] == t[t.len() - 1] as u8);
}

/// Writing a timestamp and reading the text back gives the same instant and the same number of
/// fractional digits, as a canonical value: for a year from 0 to 9999 (a negative year is written
/// with a sign, which the reader refuses) and nanoseconds that the written digits hold exactly.
pub proof fn lemma_written_text_reads_back(d: DateTime)
    requires
        d.wf(),
        civil_of_unix(d.spec_unix()).0 >= 0,
        d.spec_nanos() % (pow10((9 - d.spec_frac_digits()) as nat) as int) == 0,
    ensures
        datetime_outcome(encode_utf8(d.text())) == Ok::<(int, int, int, bool), Seq<char>>(
            (d.spec_unix(), d.spec_nanos(), d.spec_frac_digits(), true),
        ),
{
    let k = d.spec_frac_digits() as nat;
    let b = encode_utf8(d.text());
    lemma_text_bytes(d);
    assert(fields_fault(b) is None);
    let end = b.len() - 1;
    if k > 0 {
        lemma_run_end(b, 20, 20 + k as int);
        assert(fraction_len(b) == k);
    } else {
        assert(!has_fraction(b));
        assert(pow10(9) == 1_000_000_000) by {
            reveal_with_fuel(pow10, 10);
        }
        assert(fraction_nanos(b) == 0) by (nonlinear_arith)
            requires
                fraction_nanos(b) == digits_value(b, 20, 20) * pow10(9),
                digits_value(b, 20, 20) == 0,
        ;
    }
    assert(fraction_end(b) == end);
    assert(offset_at(b, end) == Ok::<(int, int, bool), Seq<char>>((0, end + 1, true)));
}

} // verus!
