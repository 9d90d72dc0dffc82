use chrono::{DateTime, Datelike, NaiveTime, Timelike};
use vstd::prelude::*;

verus! {

/// The number of seconds in a civil day.
pub const SECONDS_PER_DAY: i64 = 86_400;

/// The earliest Unix timestamp that names an instant of the civil calendar.
pub const MIN_TIMESTAMP: i64 = -8_334_601_228_800;

/// The latest Unix timestamp that names an instant of the civil calendar.
pub const MAX_TIMESTAMP: i64 = 8_210_266_876_799;

/// Whether `secs`, read as seconds since 1970-01-01 00:00:00 UTC, names an
/// instant of the civil calendar.
pub open spec fn is_timestamp(secs: int) -> bool {
    MIN_TIMESTAMP <= secs <= MAX_TIMESTAMP
}

/// The number of whole days from 1970-01-01 to the UTC day that holds the
/// instant `secs`; negative before 1970.
pub open spec fn day_number(secs: int) -> int {
    secs / 86_400
}

/// The number of seconds from the start of its UTC day to the instant `secs`.
pub open spec fn second_of_day(secs: int) -> int {
    secs % 86_400
}

/// The first instant of the UTC day that holds the instant `secs`.
pub open spec fn midnight_of(secs: int) -> int {
    secs - second_of_day(secs)
}

/// The hour of the UTC day, from 0 to 23, at the instant `secs`.
pub open spec fn hour_of(secs: int) -> int {
    second_of_day(secs) / 3600
}

/// The minute of the hour, from 0 to 59, at the instant `secs`.
pub open spec fn minute_of(secs: int) -> int {
    (second_of_day(secs) / 60) % 60
}

/// The second of the minute, from 0 to 59, at the instant `secs`.
pub open spec fn second_of(secs: int) -> int {
    second_of_day(secs) % 60
}

/// The day of the week on which the instant `secs` falls in UTC, counted from
/// Sunday as 0 to Saturday as 6. The days of the week follow one another in
/// rounds of seven, and 1970-01-01 was a Thursday.
pub open spec fn weekday_of(secs: int) -> int {
    (day_number(secs) + 4) % 7
}

/// The year of the proleptic Gregorian calendar in which the instant `secs`
/// falls in UTC.
pub uninterp spec fn year_of(secs: int) -> int;

/// The month of the year, from 1 to 12, in which the instant `secs` falls in
/// UTC.
pub uninterp spec fn month_of(secs: int) -> int;

/// The day of the month, from 1 to 31, on which the instant `secs` falls in
/// UTC.
pub uninterp spec fn day_of(secs: int) -> int;

/// `chrono::Datelike::year` of the `DateTime<Utc>` that
/// `chrono::DateTime::from_timestamp` makes of `secs`. Nothing is claimed of
/// the year but that it is the one `year_of` names.
#[verifier::external_body]
pub(crate) fn civil_year(secs: i64) -> (r: i32)
    requires
        is_timestamp(secs as int),
    ensures
        r == year_of(secs as int),
{
    DateTime::from_timestamp(secs, 0).unwrap().year()
}

/// `chrono::Datelike::month` of the `DateTime<Utc>` at `secs`: the month
/// that `month_of` names, which chrono documents to lie between 1 and 12.
#[verifier::external_body]
pub(crate) fn civil_month(secs: i64) -> (r: u32)
    requires
        is_timestamp(secs as int),
    ensures
        r == month_of(secs as int),
        1 <= r <= 12,
{
    DateTime::from_timestamp(secs, 0).unwrap().month()
}

/// `chrono::Datelike::day` of the `DateTime<Utc>` at `secs`: the day of the
/// month that `day_of` names, which chrono documents to lie between 1 and 31.
#[verifier::external_body]
pub(crate) fn civil_day(secs: i64) -> (r: u32)
    requires
        is_timestamp(secs as int),
    ensures
        r == day_of(secs as int),
        1 <= r <= 31,
{
    DateTime::from_timestamp(secs, 0).unwrap().day()
}

/// `chrono::Weekday::num_days_from_sunday` of `chrono::Datelike::weekday` of
/// the `DateTime<Utc>` at `secs`: the day of the week of the UTC day of
/// `secs`, from 0 for Sunday to 6 for Saturday. chrono reads it off the date;
/// the contract states it by the count of days from 1970-01-01, a Thursday.
#[verifier::external_body]
pub(crate) fn civil_weekday(secs: i64) -> (r: u32)
    requires
        is_timestamp(secs as int),
    ensures
        r == weekday_of(secs as int),
{
    DateTime::from_timestamp(secs, 0).unwrap().weekday().num_days_from_sunday()
}

/// `chrono::Timelike::hour` of the `DateTime<Utc>` at `secs`. chrono keeps
/// the seconds since midnight, `secs` reduced modulo 86400 to a non-negative
/// residue, and answers their quotient by 3600.
#[verifier::external_body]
pub(crate) fn clock_hour(secs: i64) -> (r: u32)
    requires
        is_timestamp(secs as int),
    ensures
        r == hour_of(secs as int),
{
    DateTime::from_timestamp(secs, 0).unwrap().hour()
}

/// `chrono::Timelike::minute` of the `DateTime<Utc>` at `secs`: the minutes
/// since midnight reduced modulo 60.
#[verifier::external_body]
pub(crate) fn clock_minute(secs: i64) -> (r: u32)
    requires
        is_timestamp(secs as int),
    ensures
        r == minute_of(secs as int),
{
    DateTime::from_timestamp(secs, 0).unwrap().minute()
}

/// `chrono::Timelike::second` of the `DateTime<Utc>` at `secs`: the seconds
/// since midnight reduced modulo 60.
#[verifier::external_body]
pub(crate) fn clock_second(secs: i64) -> (r: u32)
    requires
        is_timestamp(secs as int),
    ensures
        r == second_of(secs as int),
{
    DateTime::from_timestamp(secs, 0).unwrap().second()
}

/// `chrono::DateTime::timestamp` of the instant that chrono makes of the
/// date of `secs` (`DateTime::date_naive`) and the time 00:00:00
/// (`NaiveDate::and_time`): the timestamp of the midnight that opens the UTC
/// day of `secs`, a multiple of 86400.
#[verifier::external_body]
pub(crate) fn civil_midnight(secs: i64) -> (r: i64)
    requires
        is_timestamp(secs as int),
    ensures
        r == midnight_of(secs as int),
{
    DateTime::from_timestamp(secs, 0).unwrap().date_naive().and_time(NaiveTime::MIN).and_utc().timestamp()
}

/// The least non-negative residue of `a` modulo `m`.
pub fn floor_mod(a: i64, m: i64) -> (r: i64)
    requires
        m > 0,
    ensures
        r == (a as int) % (m as int),
        0 <= r < m,
{
    let r = a % m;
    proof {
        if a < 0 {
            lemma_signed_remainder(a as int, m as int);
        }
    }
    if r < 0 {
        r + m
    } else {
        r
    }
}

/// The remainder that takes the sign of a negative dividend lies one
/// modulus below the least non-negative residue, unless both are zero.
pub proof fn lemma_signed_remainder(a: int, m: int)
    requires
        a < 0,
        m > 0,
    ensures
        (-a) % m == 0 ==> a % m == 0,
        (-a) % m != 0 ==> a % m == m - (-a) % m,
{
    let q = (-a) / m;
    let r = (-a) % m;
    assert(-a == m * q + r) by {
        vstd::arithmetic::div_mod::lemma_fundamental_div_mod(-a, m);
    }
    if r == 0 {
        assert(a == m * (-q)) by (nonlinear_arith)
            requires
                -a == m * q + r,
                r == 0,
        ;
        vstd::arithmetic::div_mod::lemma_fundamental_div_mod_converse(a, m, -q, 0);
    } else {
        assert(a == m * (-q - 1) + (m - r)) by (nonlinear_arith)
            requires
                -a == m * q + r,
        ;
        vstd::arithmetic::div_mod::lemma_fundamental_div_mod_converse(a, m, -q - 1, m - r);
    }
}

/// An instant of the civil calendar in UTC: whole seconds since 1970-01-01
/// 00:00:00 and the nanoseconds past that second.
#[derive(Debug, Clone, Copy, PartialEq, Eq, Structural)]
pub struct UtcInstant {
    secs: i64,
    nanos: u32,
}

impl UtcInstant {
    #[verifier::type_invariant]
    spec fn wf(self) -> bool {
        Self::is_representable(self.secs as int, self.nanos as int)
    }

    /// Whether the pair names an instant: the seconds lie within the civil
    /// calendar, and the nanoseconds stay below one second, or below two in
    /// the last second of a minute, where a leap second may be counted.
    pub open spec fn is_representable(secs: int, nanos: int) -> bool {
        &&& is_timestamp(secs)
        &&& 0 <= nanos < 2_000_000_000
        &&& nanos >= 1_000_000_000 ==> second_of(secs) == 59
    }

    /// The seconds since 1970-01-01 00:00:00 UTC.
    pub closed spec fn seconds(self) -> int {
        self.secs as int
    }

    /// The nanoseconds past the whole second.
    pub closed spec fn nanoseconds(self) -> int {
        self.nanos as int
    }

    /// The instant `nanos` nanoseconds after the second `secs`, or nothing
    /// where the pair names no instant.
    pub fn new(secs: i64, nanos: u32) -> (r: Option<UtcInstant>)
        ensures
            r is Some <==> Self::is_representable(secs as int, nanos as int),
            r is Some ==> r.unwrap().seconds() == secs && r.unwrap().nanoseconds() == nanos,
    {
        if secs < MIN_TIMESTAMP || secs > MAX_TIMESTAMP || nanos >= 2_000_000_000 {
            return None;
        }
        proof {
            vstd::arithmetic::div_mod::lemma_mod_mod(secs as int, 60, 1440);
        }
        if nanos >= 1_000_000_000 && floor_mod(secs, 60) != 59 {
            return None;
        }
        Some(UtcInstant { secs, nanos })
    }

    /// The seconds since 1970-01-01 00:00:00 UTC.
    pub fn timestamp(&self) -> (r: i64)
        ensures
            r == self.seconds(),
            is_timestamp(r as int),
    {
        proof {
            use_type_invariant(self);
        }
        self.secs
    }

    /// The nanoseconds past the whole second.
    pub fn nanosecond(&self) -> (r: u32)
        ensures
            r == self.nanoseconds(),
    {
        self.nanos
    }
}

} // verus!
