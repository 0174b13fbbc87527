//! Wall-clock time and the civil calendar, as provided by `chrono`.
use vstd::prelude::*;
use chrono::Datelike;

verus! {

/// A calendar day in the proleptic Gregorian calendar.
#[derive(Debug, Clone, Copy, PartialEq, Eq, Structural)]
pub struct CivilDay {
    pub year: i32,
    /// 1 to 12.
    pub month: u32,
    /// 1 to 31.
    pub day: u32,
    /// Days since Sunday, 0 to 6.
    pub weekday_from_sunday: u32,
}

/// The UTC calendar day that contains the Unix time `ts`, as `chrono` computes it, or `None`
/// where `chrono` cannot represent that time.
pub uninterp spec fn day_of(ts: int) -> Option<CivilDay>;

/// The Unix time of `hour`:00:00 UTC on the given date, as `chrono` computes it, or `None`
/// where the date or hour does not exist.
pub uninterp spec fn time_of(year: int, month: int, day: int, hour: int) -> Option<int>;

/// The day of the week of a Unix time in UTC, counted from Sunday: 1 January 1970 was a
/// Thursday, and every day has 86400 seconds.
pub open spec fn weekday_at(ts: int) -> int {
    (ts / 86400 + 4) % 7
}

/// Whether a year of the proleptic Gregorian calendar is a leap year.
pub open spec fn is_leap_year(y: int) -> bool {
    y % 4 == 0 && (y % 100 != 0 || y % 400 == 0)
}

/// Number of days of a month of the proleptic Gregorian calendar.
pub open spec fn days_in_month(y: int, m: int) -> int {
    if m == 2 {
        if is_leap_year(y) { 29 } else { 28 }
    } else if m == 4 || m == 6 || m == 9 || m == 11 {
        30
    } else {
        31
    }
}

/// The year of the month after month `m` of year `y`.
pub open spec fn following_year(y: int, m: int) -> int {
    if m == 12 { y + 1 } else { y }
}

/// The month after month `m`.
pub open spec fn following_month(m: int) -> int {
    if m == 12 { 1 } else { m + 1 }
}

/// Bound on the magnitude of any time `chrono` represents (its dates span about
/// 262,000 years on either side of year 0).
pub open spec fn chrono_range(t: int) -> bool {
    -10_000_000_000_000 < t < 10_000_000_000_000
}

/// The current Unix time in seconds (calls `chrono::Utc::now` and `timestamp`). Which time it
/// is, is not claimed; `Utc::now` stops on a clock set before 1970 and builds its value with
/// `DateTime::from_timestamp(..).unwrap()`, so a time it returns is not negative and has a
/// calendar day.
#[verifier::external_body]
pub(crate) fn utc_now_timestamp() -> (r: i64)
    ensures
        r >= 0,
        day_of(r as int) is Some,
{
    chrono::Utc::now().timestamp()
}

/// The UTC calendar day of a Unix time (calls `chrono::DateTime::from_timestamp` and reads
/// the date's year, month, day and weekday). Claims the result is `day_of(ts)`, that the
/// fields lie in their documented ranges, that a represented time lies in `chrono_range`,
/// that the day's midnight exists and lies in the last day up to `ts` (UTC days are 86400
/// seconds long in Unix time), and that the weekday is `weekday_at(ts)`.
#[verifier::external_body]
pub(crate) fn civil_day(ts: i64) -> (r: Option<CivilDay>)
    ensures
        r == day_of(ts as int),
        r matches Some(d) ==> 1 <= d.month <= 12 && 1 <= d.day <= 31 && d.weekday_from_sunday <= 6
            && -300_000 < d.year < 300_000,
        r is Some ==> chrono_range(ts as int),
        r matches Some(d) ==> (time_of(d.year as int, d.month as int, d.day as int, 0) matches Some(m)
            && m <= ts < m + 86400),
        r matches Some(d) ==> d.weekday_from_sunday == weekday_at(ts as int),
{
    chrono::DateTime::from_timestamp(ts, 0).map(|t| {
        let d = t.date_naive();
        CivilDay { year: d.year(), month: d.month(), day: d.day(), weekday_from_sunday: d.weekday().num_days_from_sunday() }
    })
}

/// The Unix time of `hour`:00:00 UTC on a date (calls `chrono::NaiveDate::from_ymd_opt`
/// and `and_hms_opt`). Claims the result is `time_of(..)` and lies in `chrono_range`, and
/// that for an hour of the day (0 to 23) it exists exactly when the date's midnight does and
/// lies `hour` hours after it, midnights being whole multiples of 86400 seconds; that the
/// time falls on the date asked for; and the proleptic Gregorian calendar that chrono
/// documents: a date exists only with a month from 1 to 12 and a day within the month's
/// length, every day of a month exists when its first day does, days of a month follow each
/// other 86400 seconds apart, and the next month starts when the month's days are over.
#[verifier::external_body]
pub(crate) fn time_at(year: i32, month: u32, day: u32, hour: u32) -> (r: Option<i64>)
    ensures
        match r {
            Some(t) => time_of(year as int, month as int, day as int, hour as int) == Some(t as int) && chrono_range(t as int),
            None => time_of(year as int, month as int, day as int, hour as int) is None,
        },
        hour <= 23 ==> (r is Some <==> time_of(year as int, month as int, day as int, 0) is Some),
        hour <= 23 ==> (r matches Some(t) ==> time_of(year as int, month as int, day as int, 0) == Some(t - 3600 * hour)),
        hour <= 23 ==> (r matches Some(t) ==> t % 86400 == 3600 * hour),
        r matches Some(t) ==> (day_of(t as int) matches Some(dd)
            && dd.year == year && dd.month == month && dd.day == day),
        r is Some ==> 1 <= month <= 12 && 1 <= day <= days_in_month(year as int, month as int),
        hour <= 23 && 1 <= month <= 12 && 1 <= day <= days_in_month(year as int, month as int)
            && time_of(year as int, month as int, 1, 0) is Some ==> r is Some,
        hour <= 23 ==> (r matches Some(t) ==> time_of(year as int, month as int, 1, 0)
            == Some(t - 3600 * hour - (day - 1) * 86400)),
        hour <= 23 ==> (r matches Some(t) ==> (time_of(following_year(year as int, month as int),
            following_month(month as int), 1, 0) matches Some(n)
            ==> n == t - 3600 * hour - (day - 1) * 86400 + 86400 * days_in_month(year as int, month as int))),
{
    chrono::NaiveDate::from_ymd_opt(year, month, day).and_then(|d| d.and_hms_opt(hour, 0, 0)).map(|t| t.and_utc().timestamp())
}

/// Calendar patterns this library formats times with.
pub open spec fn is_known_pattern(p: Seq<char>) -> bool {
    p == "%Y-%m-%d %H:%M:%S"@ || p == "%Y-%m-%d"@ || p == "%Y%m%d_%H%M%S"@
}

/// The UTC time `ts` written with a `chrono` format pattern, or `None` where `chrono` cannot
/// represent the time.
pub uninterp spec fn formatted_utc(ts: int, pattern: Seq<char>) -> Option<Seq<char>>;

/// Writes a Unix time in UTC with a format pattern (calls `chrono::DateTime::from_timestamp`
/// and `format`). Claims the result is `formatted_utc(ts, pattern)`.
#[verifier::external_body]
pub(crate) fn format_utc(ts: i64, pattern: &str) -> (r: Option<String>)
    requires
        is_known_pattern(pattern@),
    ensures
        match r {
            Some(t) => formatted_utc(ts as int, pattern@) == Some(t@),
            None => formatted_utc(ts as int, pattern@) is None,
        },
{
    chrono::DateTime::from_timestamp(ts, 0).map(|d| d.format(pattern).to_string())
}

} // verus!
