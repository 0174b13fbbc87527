//! Traffic records, summaries and the traffic reset schedule.
use vstd::prelude::*;
use crate::clock::{
    civil_day, day_of, days_in_month, following_month, following_year, time_at, time_of, utc_now_timestamp, weekday_at,
};

verus! {

/// Traffic record for tracking usage over time.
#[derive(Debug, Clone)]
pub struct Traffic {
    pub id: i64,
    pub inbound_id: i64,
    pub up: i64,
    pub down: i64,
    pub recorded_at: i64,
}

/// Traffic update reported by Xray.
#[derive(Debug)]
pub struct TrafficUpdate {
    pub tag: String,
    pub up: i64,
    pub down: i64,
}

/// Client traffic update.
#[derive(Debug)]
pub struct ClientTrafficUpdate {
    pub email: String,
    pub up: i64,
    pub down: i64,
}

/// Traffic history entry.
#[derive(Debug, Clone)]
pub struct TrafficHistory {
    pub id: i64,
    pub inbound_id: i64,
    pub client_id: Option<i64>,
    pub up: i64,
    pub down: i64,
    pub recorded_at: i64,
}

/// Traffic history query parameters.
#[derive(Debug)]
pub struct TrafficHistoryQuery {
    pub inbound_id: Option<i64>,
    pub client_id: Option<i64>,
    pub start_time: Option<i64>,
    pub end_time: Option<i64>,
    /// "hour", "day", "week" or "month".
    pub interval: Option<String>,
}

/// Traffic summary for a period.
#[derive(Debug)]
pub struct TrafficSummary {
    pub total_up: i64,
    pub total_down: i64,
    pub total: i64,
    pub period_start: i64,
    pub period_end: i64,
    pub inbounds: Vec<InboundTrafficSummary>,
}

/// Per-inbound traffic summary.
#[derive(Debug)]
pub struct InboundTrafficSummary {
    pub inbound_id: i64,
    pub tag: String,
    pub up: i64,
    pub down: i64,
    pub total: i64,
    pub client_count: i64,
}

/// Traffic reset configuration.
#[derive(Debug, Clone, Copy)]
pub struct TrafficResetConfig {
    /// 0 = never, 1 = daily, 2 = weekly, 3 = monthly.
    pub reset_type: i32,
    /// Day of week for weekly resets (0-6, Sunday = 0).
    pub reset_day: i32,
    /// Day of month for monthly resets (1-31; days past 28 reset on the 28th).
    pub reset_day_of_month: i32,
    /// Hour of day for resets (0-23; later hours mean 23).
    pub reset_hour: i32,
    pub last_reset: i64,
    pub next_reset: i64,
}

impl Default for TrafficResetConfig {
    /// Never resets; monthly resets would fall on the 1st at midnight.
    fn default() -> (r: TrafficResetConfig)
        ensures
            r.reset_type == 0,
            r.reset_day == 0,
            r.reset_day_of_month == 1,
            r.reset_hour == 0,
            r.last_reset == 0,
            r.next_reset == 0,
    {
        TrafficResetConfig {
            reset_type: 0,
            reset_day: 0,
            reset_day_of_month: 1,
            reset_hour: 0,
            last_reset: 0,
            next_reset: 0,
        }
    }
}

/// The hour a reset happens at: out of range values (negative ones included) mean 23.
pub open spec fn effective_hour(h: i32) -> int {
    if 0 <= h <= 23 { h as int } else { 23 }
}

/// The day of month of a monthly reset: 0 means 1, values past 28 and negative ones mean 28.
pub open spec fn effective_day_of_month(d: i32) -> int {
    if d < 0 || d > 28 { 28 } else if d == 0 { 1 } else { d as int }
}

/// Remainder of a truncating division by a positive number (sign follows the dividend).
pub open spec fn truncated_rem(a: int, b: int) -> int
    recommends
        b > 0,
{
    if a >= 0 { a % b } else { -((-a) % b) }
}

/// The Unix time of the first reset after `now` under configuration `c`: 0 for configurations
/// that never reset (or when `now` has no calendar day).
pub open spec fn next_reset_time(c: TrafficResetConfig, now: i64) -> int {
    if c.reset_type < 1 || c.reset_type > 3 {
        0
    } else {
        match day_of(now as int) {
            None => 0,
            Some(d) => {
                let h = effective_hour(c.reset_hour);
                let today = match time_of(d.year as int, d.month as int, d.day as int, h) {
                    Some(t) => t,
                    None => now as int,
                };
                if c.reset_type == 1 {
                    if today <= now { today + 86400 } else { today }
                } else if c.reset_type == 2 {
                    let days = truncated_rem(c.reset_day - d.weekday_from_sunday + 7, 7);
                    let candidate = today + days * 86400;
                    if candidate <= now { candidate + 604800 } else { candidate }
                } else {
                    let dom = effective_day_of_month(c.reset_day_of_month);
                    let this_month = match time_of(d.year as int, d.month as int, dom, h) {
                        Some(t) => t,
                        None => today,
                    };
                    if this_month <= now {
                        let next_year = if d.month == 12 { d.year + 1 } else { d.year as int };
                        let next_month = if d.month == 12 { 1 } else { d.month + 1 };
                        match time_of(next_year, next_month, dom, h) {
                            Some(t) => t,
                            None => today,
                        }
                    } else {
                        this_month
                    }
                }
            },
        }
    }
}

proof fn lemma_same_day(now: int, today: int, h: int)
    requires
        0 <= h <= 23,
        today % 86400 == 3600 * h,
        today - 3600 * h <= now < today - 3600 * h + 86400,
    ensures
        now / 86400 == today / 86400,
{
    let m = today - 3600 * h;
    assert(m % 86400 == 0 && m / 86400 == today / 86400) by (nonlinear_arith)
        requires
            today % 86400 == 3600 * h,
            m == today - 3600 * h,
            0 <= h <= 23,
    ;
    assert(now / 86400 == m / 86400) by (nonlinear_arith)
        requires
            m % 86400 == 0,
            m <= now < m + 86400,
    ;
}

proof fn lemma_whole_days(t: int, k: int)
    ensures
        (t + k * 86400) % 86400 == t % 86400,
        (t + k * 86400) / 86400 == t / 86400 + k,
{
    assert((t + k * 86400) % 86400 == t % 86400 && (t + k * 86400) / 86400 == t / 86400 + k) by (nonlinear_arith);
}

proof fn lemma_weekday_step(now: int, today: int, k: int, wd: int, rd: int, days: int)
    requires
        now / 86400 == today / 86400,
        wd == weekday_at(now),
        0 <= rd <= 6,
        0 <= wd <= 6,
        days == (rd - wd + 7) % 7,
        k == days || k == days + 7,
    ensures
        weekday_at(today + k * 86400) == rd,
{
    lemma_whole_days(today, k);
    let q = now / 86400;
    assert(((q + k + 4) % 7) == rd) by (nonlinear_arith)
        requires
            wd == (q + 4) % 7,
            0 <= rd <= 6,
            0 <= wd <= 6,
            days == (rd - wd + 7) % 7,
            k == days || k == days + 7,
    ;
}

/// The configured hour and day of the month are used as they are when they are valid: hours
/// 0 to 23, days 1 to 28. Other hours mean 23; a day of 0 means the 1st and larger or
/// negative days the 28th, a day that every month has.
pub proof fn lemma_reset_settings_kept(hour: i32, day: i32)
    ensures
        0 <= hour <= 23 ==> effective_hour(hour) == hour,
        !(0 <= hour <= 23) ==> effective_hour(hour) == 23,
        1 <= day <= 28 ==> effective_day_of_month(day) == day,
        day == 0 ==> effective_day_of_month(day) == 1,
        (day < 0 || day > 28) ==> effective_day_of_month(day) == 28,
        1 <= effective_day_of_month(day) <= 28,
{
}

impl TrafficResetConfig {
    /// The first reset after the Unix time `now` (see `next_reset_time`).
    pub fn next_reset_after(&self, now: i64) -> (r: i64)
        ensures
            r == next_reset_time(*self, now),
            reset_lies_after(*self, now, r),
            (self.reset_type == 1 || self.reset_type == 2) && day_of(now as int) is Some ==> r > now,
            (self.reset_type == 1 || self.reset_type == 2) && day_of(now as int) is Some
                ==> r % 86400 == 3600 * effective_hour(self.reset_hour),
            self.reset_type == 1 && day_of(now as int) is Some ==> r <= now + 86400,
            self.reset_type == 2 && day_of(now as int) is Some ==> r <= now + 604800,
            self.reset_type == 2 && 0 <= self.reset_day <= 6 && day_of(now as int) is Some
                ==> weekday_at(r as int) == self.reset_day,
            self.reset_type == 3 ==> (day_of(now as int) matches Some(d) ==> (
                time_of(following_year(d.year as int, d.month as int), following_month(d.month as int), 1, 0) is Some
                ==> now < r <= now + 31 * 86400
                    && r % 86400 == 3600 * effective_hour(self.reset_hour)
                    && (day_of(r as int) matches Some(rd) && rd.day == effective_day_of_month(self.reset_day_of_month)
                        && (1 <= self.reset_day_of_month <= 28 ==> rd.day == self.reset_day_of_month)))),
            (self.reset_type == 1 || self.reset_type == 2) && day_of(now as int) is Some && 0 <= self.reset_hour <= 23
                ==> r % 86400 == 3600 * self.reset_hour,
            self.reset_type == 3 ==> (day_of(now as int) matches Some(d) ==> (
                time_of(d.year as int, d.month as int, effective_day_of_month(self.reset_day_of_month), effective_hour(self.reset_hour))
                    matches Some(t) ==> {
                    &&& (t > now ==> r == t)
                    &&& (t <= now ==> (time_of(following_year(d.year as int, d.month as int), following_month(d.month as int),
                        effective_day_of_month(self.reset_day_of_month), effective_hour(self.reset_hour)) matches Some(t2)
                        ==> r == t2))
                })),
    {
        if self.reset_type < 1 || self.reset_type > 3 {
            return 0;
        }
        let d = match civil_day(now) {
            Some(d) => d,
            None => return 0,
        };
        let hour: u32 = if 0 <= self.reset_hour && self.reset_hour <= 23 { self.reset_hour as u32 } else { 23 };
        let today = match time_at(d.year, d.month, d.day, hour) {
            Some(t) => t,
            None => now,
        };
        proof {
            if self.reset_type == 1 || self.reset_type == 2 {
                lemma_same_day(now as int, today as int, hour as int);
            }
        }
        if self.reset_type == 1 {
            let r = if today <= now { today + 86400 } else { today };
            proof {
                lemma_whole_days(today as int, (r - today) / 86400);
            }
            r
        } else if self.reset_type == 2 {
            let a: i64 = self.reset_day as i64 - d.weekday_from_sunday as i64 + 7;
            let days: i64 = if a >= 0 { a % 7 } else { -((-a) % 7) };
            let candidate = today + days * 86400;
            let r = if candidate <= now { candidate + 604800 } else { candidate };
            proof {
                let k: int = if candidate <= now { days + 7 } else { days as int };
                assert(r == today + k * 86400);
                lemma_whole_days(today as int, k);
                if 0 <= self.reset_day <= 6 {
                    lemma_weekday_step(now as int, today as int, k, d.weekday_from_sunday as int, self.reset_day as int, days as int);
                }
            }
            r
        } else {
            let dom: u32 = if self.reset_day_of_month < 0 || self.reset_day_of_month > 28 {
                28
            } else if self.reset_day_of_month == 0 {
                1
            } else {
                self.reset_day_of_month as u32
            };
            let tm = time_at(d.year, d.month, dom, hour);
            let this_month = match tm {
                Some(t) => t,
                None => today,
            };
            if this_month <= now {
                let next_year: i32 = if d.month == 12 { d.year + 1 } else { d.year };
                let next_month: u32 = if d.month == 12 { 1 } else { d.month + 1 };
                let nm = time_at(next_year, next_month, dom, hour);
                proof {
                    assert(next_year as int == following_year(d.year as int, d.month as int));
                    assert(next_month as int == following_month(d.month as int));
                    assert(days_in_month(next_year as int, next_month as int) >= 28);
                    assert(days_in_month(d.year as int, d.month as int) >= d.day);
                    assert(days_in_month(d.year as int, d.month as int) <= 31);
                }
                match nm {
                    Some(t) => t,
                    None => today,
                }
            } else {
                proof {
                    assert(days_in_month(d.year as int, d.month as int) >= 28);
                }
                this_month
            }
        }
    }

    /// The Unix time of the next reset from now; 0 when the configuration never resets.
    pub fn calculate_next_reset(&self) -> (r: i64)
        ensures
            self.reset_type == 0 ==> r == 0,
            self.reset_type != 0 ==> exists|now: i64| now >= 0 && day_of(now as int) is Some
                && r == next_reset_time(*self, now) && reset_lies_after(*self, now, r),
    {
        if self.reset_type == 0 {
            return 0;
        }
        let now = utc_now_timestamp();
        self.next_reset_after(now)
    }
}

/// The next reset lies after `now`: always for daily and weekly resets, and for monthly ones
/// when the following month can be represented.
pub open spec fn reset_lies_after(c: TrafficResetConfig, now: i64, r: i64) -> bool {
    &&& (c.reset_type == 1 || c.reset_type == 2) && day_of(now as int) is Some ==> now < r
    &&& c.reset_type == 3 ==> (day_of(now as int) matches Some(d) ==> (
            time_of(following_year(d.year as int, d.month as int), following_month(d.month as int), 1, 0) is Some
            ==> now < r))
}

} // verus!
