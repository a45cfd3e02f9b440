//! Instants and spans, both counted in nanoseconds.
use chrono::TimeZone;
use vstd::prelude::*;

verus! {

/// Nanoseconds in one day.
pub const NANOS_PER_DAY: i64 = 86_400_000_000_000;

/// The largest number of days that a `Span` can hold.
pub const MAX_SPAN_DAYS: i64 = 106_751;

/// An instant in UTC, as nanoseconds since 1970-01-01T00:00:00Z.
#[derive(Clone, Copy, Debug, PartialEq, Eq, Structural)]
pub struct Timestamp {
    pub nanos: i64,
}

/// A signed length of time in nanoseconds.
#[derive(Clone, Copy, Debug, PartialEq, Eq, Structural)]
pub struct Span {
    pub nanos: i64,
}

/// Whether `year` is a leap year of the proleptic Gregorian calendar.
pub open spec fn is_leap_year(year: int) -> bool {
    (year % 4 == 0 && year % 100 != 0) || year % 400 == 0
}

/// The number of days in a month of a year.
pub open spec fn days_in_month(year: int, month: int) -> int {
    if month == 2 {
        if is_leap_year(year) { 29 } else { 28 }
    } else if month == 4 || month == 6 || month == 9 || month == 11 {
        30
    } else {
        31
    }
}

/// Days from 1970-01-01 to a date of the proleptic Gregorian calendar.
pub open spec fn days_from_civil(year: int, month: int, day: int) -> int {
    let y = if month <= 2 { year - 1 } else { year };
    let era = y / 400;
    let yoe = y - era * 400;
    let mp = (month + 9) % 12;
    let doy = (153 * mp + 2) / 5 + day - 1;
    let doe = yoe * 365 + yoe / 4 - yoe / 100 + doy;
    era * 146097 + doe - 719468
}

/// Whether the calendar date and time of day exist (no leap second).
pub open spec fn valid_civil(year: int, month: int, day: int, hour: int, min: int, sec: int) -> bool {
    &&& 1 <= month <= 12
    &&& 1 <= day <= days_in_month(year, month)
    &&& 0 <= hour < 24
    &&& 0 <= min < 60
    &&& 0 <= sec < 60
}

/// Nanoseconds since the epoch of the UTC instant with this calendar date and
/// time of day, or `None` where there is no such instant or it lies outside
/// the range of an `i64` count of nanoseconds. (Years beyond chrono's own
/// range lie far outside that range.)
pub open spec fn utc_nanos(year: int, month: int, day: int, hour: int, min: int, sec: int) -> Option<int> {
    let n = (days_from_civil(year, month, day) * 86400 + hour * 3600 + min * 60 + sec) * 1_000_000_000;
    if valid_civil(year, month, day, hour, min, sec) && i64::MIN <= n <= i64::MAX {
        Some(n)
    } else {
        None
    }
}

/// Relies on chrono's `Utc.with_ymd_and_hms(..).single()` and
/// `DateTime::timestamp_nanos_opt`: a calendar date and time of day in UTC as
/// nanoseconds since the epoch, `None` when the date is invalid or out of range.
#[verifier::external_body]
fn utc_calendar_nanos(year: i32, month: u32, day: u32, hour: u32, min: u32, sec: u32) -> (r: Option<i64>)
    ensures
        r matches Some(n) ==> utc_nanos(year as int, month as int, day as int, hour as int, min as int, sec as int) == Some(n as int),
        r is None ==> utc_nanos(year as int, month as int, day as int, hour as int, min as int, sec as int) is None,
{
    chrono::Utc.with_ymd_and_hms(year, month, day, hour, min, sec).single().and_then(|t| t.timestamp_nanos_opt())
}

impl Timestamp {
    pub fn from_nanos(nanos: i64) -> (r: Timestamp)
        ensures
            r.nanos == nanos,
    {
        Timestamp { nanos }
    }

    /// The UTC instant at a calendar date and time of day.
    pub fn from_utc(year: i32, month: u32, day: u32, hour: u32, min: u32, sec: u32) -> (r: Option<Timestamp>)
        ensures
            r matches Some(t) ==> utc_nanos(year as int, month as int, day as int, hour as int, min as int, sec as int) == Some(t.nanos as int),
            r is None ==> utc_nanos(year as int, month as int, day as int, hour as int, min as int, sec as int) is None,
    {
        match utc_calendar_nanos(year, month, day, hour, min, sec) {
            Some(n) => Some(Timestamp { nanos: n }),
            None => None,
        }
    }

    pub fn nanos(&self) -> (r: i64)
        ensures
            r == self.nanos,
    {
        self.nanos
    }

    /// Whether `self` lies strictly after `other`.
    pub fn is_after(&self, other: &Timestamp) -> (r: bool)
        ensures
            r == (self.nanos > other.nanos),
    {
        self.nanos > other.nanos
    }
}

impl Span {
    pub fn from_nanos(nanos: i64) -> (r: Span)
        ensures
            r.nanos == nanos,
    {
        Span { nanos }
    }

    /// A span of whole days.
    pub fn days(days: i64) -> (r: Span)
        requires
            -MAX_SPAN_DAYS <= days <= MAX_SPAN_DAYS,
        ensures
            r.nanos == days * NANOS_PER_DAY,
    {
        assert(-MAX_SPAN_DAYS * NANOS_PER_DAY <= days * NANOS_PER_DAY <= MAX_SPAN_DAYS * NANOS_PER_DAY) by (nonlinear_arith)
            requires
                -MAX_SPAN_DAYS <= days <= MAX_SPAN_DAYS;
        Span { nanos: days * NANOS_PER_DAY }
    }

    pub fn nanos(&self) -> (r: i64)
        ensures
            r == self.nanos,
    {
        self.nanos
    }
}

} // verus!
