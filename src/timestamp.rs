//! Unix timestamps: conversion to and from UTC dates and times, and the
//! proof that the conversion is one to one on the calendar range.
use vstd::arithmetic::div_mod::{lemma_fundamental_div_mod, lemma_fundamental_div_mod_converse};
use vstd::prelude::*;

use chrono::{Datelike, Timelike};

use crate::error::{ErrorKind, ErrorView};
use crate::temporal::{
    clock_to_time, days_in_month, is_leap_year, ClockReading, ClockTime, Date, DateTime,
};

verus! {

/// Added to the year before the era arithmetic so that it runs on
/// non-negative numbers for every `i32` year; taken off again at the end.
pub const ERA_SHIFT: i64 = 5_368_710;

/// Days from 1970-01-01 to the given proleptic Gregorian date.
pub open spec fn days_from_civil(y: int, m: int, d: int) -> int {
    let yp = (if m <= 2 {
        y - 1
    } else {
        y
    }) + 400 * ERA_SHIFT;
    let era = yp / 400;
    let yoe = yp % 400;
    let mp = if m > 2 {
        m - 3
    } else {
        m + 9
    };
    let doy = (153 * mp + 2) / 5 + d - 1;
    let doe = yoe * 365 + yoe / 4 - yoe / 100 + doy;
    (era - ERA_SHIFT) * 146097 + doe - 719468
}

/// The day count is anchored at the epoch, and a year has 365 days or,
/// by the Gregorian rule, 366.
pub proof fn lemma_day_count_anchor(y: int)
    requires
        shifted_year(y, 3) >= 0,
    ensures
        days_from_civil(1970, 1, 1) == 0,
        days_from_civil(y + 1, 3, 1) - days_from_civil(y, 3, 1) == if is_leap_year(y + 1) {
            366int
        } else {
            365int
        },
{
    lemma_days_split(y, 3, 1);
    lemma_days_split(y + 1, 3, 1);
    lemma_year_length(shifted_year(y, 3));
    assert(is_leap_year(shifted_year(y, 3) + 1) == is_leap_year(y + 1)) by {
        lemma_fundamental_div_mod(y + 1, 400);
        lemma_fundamental_div_mod(y + 1, 100);
        lemma_fundamental_div_mod(y + 1, 4);
        lemma_fundamental_div_mod_converse(
            shifted_year(y, 3) + 1,
            400,
            (y + 1) / 400 + ERA_SHIFT,
            (y + 1) % 400,
        );
        lemma_fundamental_div_mod_converse(
            shifted_year(y, 3) + 1,
            100,
            (y + 1) / 100 + 4 * ERA_SHIFT,
            (y + 1) % 100,
        );
        lemma_fundamental_div_mod_converse(
            shifted_year(y, 3) + 1,
            4,
            (y + 1) / 4 + 100 * ERA_SHIFT,
            (y + 1) % 4,
        );
    }
}

/// Whole seconds since 1970-01-01T00:00:00 (leap seconds not counted).
pub open spec fn unix_seconds(date: Date, hour: int, minute: int, second: int) -> int {
    days_from_civil(date.year as int, date.month as int, date.day as int) * 86400 + hour * 3600
        + minute * 60 + second
}

pub open spec fn datetime_seconds(dt: DateTime) -> int {
    unix_seconds(dt.date, dt.time.hour as int, dt.time.minute as int, dt.time.second as int)
}

/// The first second of -262143-01-01, the earliest that chrono represents.
pub const MIN_TIMESTAMP: i64 = -8_334_601_228_800;

/// The last second of +262142-12-31, the latest that chrono represents.
pub const MAX_TIMESTAMP: i64 = 8_210_266_876_799;

/// Relies on chrono's `DateTime::<Utc>::from_timestamp`: the UTC date and
/// time that lie `secs` non-leap seconds after the Unix epoch, with `nsecs`
/// as the fraction; `Some` for every second of chrono's calendar range and
/// a fraction under a second.
#[verifier::external_body]
fn utc_from_timestamp(secs: i64, nsecs: u32) -> (r: Option<ClockReading>)
    ensures
        r matches Some(c) ==> c.wf() && unix_seconds(
            c.date,
            c.time.hour as int,
            c.time.minute as int,
            c.time.second as int,
        ) == secs && c.time.nanosecond == nsecs,
        MIN_TIMESTAMP <= secs <= MAX_TIMESTAMP && nsecs < 1_000_000_000 ==> r is Some,
{
    match chrono::DateTime::from_timestamp(secs, nsecs) {
        Some(t) => Some(ClockReading {
            date: Date { year: t.year(), month: t.month() as u8, day: t.day() as u8 },
            time: ClockTime {
                hour: t.hour() as u8,
                minute: t.minute() as u8,
                second: t.second() as u8,
                nanosecond: t.nanosecond(),
            },
        }),
        None => None,
    }
}

/// The whole seconds and microseconds after carrying a full second of
/// microseconds into the seconds.
pub open spec fn carried(seconds: i64, microsecond: u32) -> (int, int) {
    if microsecond == 1_000_000 {
        (seconds + 1, 0)
    } else {
        (seconds as int, microsecond as int)
    }
}

/// `dt` is the valid UTC date and time of the timestamp.
pub open spec fn timestamp_reading(seconds: i64, microsecond: u32, dt: DateTime) -> bool {
    dt.wf() && datetime_seconds(dt) == carried(seconds, microsecond).0 && dt.time.microsecond
        == carried(seconds, microsecond).1
}

pub open spec fn timestamp_in_range(seconds: i64, microsecond: u32) -> bool {
    MIN_TIMESTAMP <= carried(seconds, microsecond).0 <= MAX_TIMESTAMP
}

/// The UTC date and time of a Unix timestamp given as whole seconds and
/// microseconds (the microseconds may be a full second, left by rounding,
/// and are then carried).
///
/// Out of chrono's calendar range the result is `OutOfRange`.
pub fn timestamp_to_datetime(seconds: i64, microsecond: u32) -> (r: Result<DateTime, ErrorKind>)
    requires
        microsecond <= 1_000_000,
    ensures
        r is Ok <==> timestamp_in_range(seconds, microsecond),
        r matches Ok(dt) ==> timestamp_reading(seconds, microsecond, dt),
        r matches Err(e) ==> e@ == (ErrorView::OutOfRange { seconds, microsecond }),
{
    let (secs, micros) = if microsecond == 1_000_000 {
        if seconds >= MAX_TIMESTAMP {
            return Err(ErrorKind::OutOfRange { seconds, microsecond });
        }
        (seconds + 1, 0u32)
    } else {
        (seconds, microsecond)
    };
    if secs < MIN_TIMESTAMP || secs > MAX_TIMESTAMP {
        return Err(ErrorKind::OutOfRange { seconds, microsecond });
    }
    match utc_from_timestamp(secs, micros * 1000) {
        Some(c) => Ok(DateTime { date: c.date, time: clock_to_time(c.time) }),
        None => Err(ErrorKind::OutOfRange { seconds, microsecond }),
    }
}

/// A timestamp carried back from the date and time that conversion gives:
/// `datetime_to_timestamp(timestamp_to_datetime(t)) == t` on the whole
/// calendar range (up to the carry of a full second of microseconds).
pub proof fn lemma_timestamp_round_trip(seconds: i64, microsecond: u32, dt: DateTime)
    requires
        microsecond <= 1_000_000,
        timestamp_in_range(seconds, microsecond),
        timestamp_reading(seconds, microsecond, dt),
    ensures
        datetime_seconds(dt) == carried(seconds, microsecond).0,
        dt.time.microsecond == carried(seconds, microsecond).1,
        microsecond < 1_000_000 ==> datetime_seconds(dt) == seconds && dt.time.microsecond
            == microsecond,
        forall|other: DateTime| #[trigger] timestamp_reading(seconds, microsecond, other) ==> other == dt,
{
    assert forall|other: DateTime| #[trigger] timestamp_reading(seconds, microsecond, other) implies other
        == dt by {
        lemma_datetime_seconds_injective(other, dt);
    }
}

/// A valid date and time inside the calendar range comes back unchanged
/// from a round trip through its timestamp:
/// `timestamp_to_datetime(datetime_to_timestamp(dt)) == dt`.
pub proof fn lemma_datetime_round_trip(dt: DateTime, back: DateTime)
    requires
        dt.wf(),
        MIN_TIMESTAMP <= datetime_seconds(dt) <= MAX_TIMESTAMP,
        timestamp_reading(datetime_seconds(dt) as i64, dt.time.microsecond, back),
    ensures
        timestamp_in_range(datetime_seconds(dt) as i64, dt.time.microsecond),
        back == dt,
{
    lemma_datetime_seconds_injective(back, dt);
}

// Injectivity of Unix seconds on valid dates and times. Days are counted
// in years that run from March to February (the shifted year `sy`), so
// that a leap day ends its year.

pub open spec fn shifted_year(y: int, m: int) -> int {
    (if m <= 2 {
        y - 1
    } else {
        y
    }) + 400 * ERA_SHIFT
}

pub open spec fn shifted_month(m: int) -> int {
    if m > 2 {
        m - 3
    } else {
        m + 9
    }
}

/// Day count at the first of March of shifted year `sy`.
pub open spec fn year_start(sy: int) -> int {
    (sy / 400) * 146097 + (sy % 400) * 365 + (sy % 400) / 4 - (sy % 400) / 100
}

pub open spec fn month_start(mp: int) -> int {
    (153 * mp + 2) / 5
}

proof fn lemma_days_split(y: int, m: int, d: int)
    requires
        1 <= m <= 12,
        shifted_year(y, m) >= 0,
    ensures
        days_from_civil(y, m, d) == year_start(shifted_year(y, m)) + month_start(shifted_month(m)) + d
            - 1 - ERA_SHIFT * 146097 - 719468,
{
}

proof fn lemma_year_length(sy: int)
    requires
        sy >= 0,
    ensures
        year_start(sy + 1) - year_start(sy) == if is_leap_year(sy + 1) {
            366int
        } else {
            365int
        },
{
    let era = sy / 400;
    let yoe = sy % 400;
    assert(sy == 400 * era + yoe && 0 <= yoe < 400) by {
        lemma_fundamental_div_mod(sy, 400);
    }
    if yoe < 399 {
        assert((sy + 1) / 400 == era && (sy + 1) % 400 == yoe + 1) by {
            lemma_fundamental_div_mod_converse(sy + 1, 400, era, yoe + 1);
        }
        assert((sy + 1) % 4 == (yoe + 1) % 4 && (sy + 1) % 100 == (yoe + 1) % 100) by {
            lemma_fundamental_div_mod_converse(sy + 1, 4, 100 * era + (yoe + 1) / 4, (yoe + 1) % 4);
            lemma_fundamental_div_mod_converse(
                sy + 1,
                100,
                4 * era + (yoe + 1) / 100,
                (yoe + 1) % 100,
            );
        }
    } else {
        assert((sy + 1) / 400 == era + 1 && (sy + 1) % 400 == 0) by {
            lemma_fundamental_div_mod_converse(sy + 1, 400, era + 1, 0);
        }
        assert((sy + 1) % 4 == 0 && (sy + 1) % 100 == 0) by {
            lemma_fundamental_div_mod_converse(sy + 1, 4, 100 * (era + 1), 0);
            lemma_fundamental_div_mod_converse(sy + 1, 100, 4 * (era + 1), 0);
        }
    }
}

proof fn lemma_year_start_grows(a: int, b: int)
    requires
        0 <= a < b,
    ensures
        year_start(a + 1) <= year_start(b),
    decreases b - a,
{
    lemma_year_length(b - 1);
    if a + 1 < b {
        lemma_year_length(a);
        lemma_year_start_grows(a, b - 1);
    }
}

/// The day of a valid date within its shifted year, and its bound.
proof fn lemma_day_in_year(y: int, m: int, d: int)
    requires
        1 <= m <= 12,
        1 <= d <= days_in_month(y, m),
        shifted_year(y, m) >= 0,
    ensures
        0 <= month_start(shifted_month(m)) + d - 1,
        month_start(shifted_month(m)) + d - 1 < year_start(shifted_year(y, m) + 1) - year_start(
            shifted_year(y, m),
        ),
{
    let sy = shifted_year(y, m);
    lemma_year_length(sy);
    if m <= 2 {
        assert(is_leap_year(sy + 1) == is_leap_year(y)) by {
            lemma_fundamental_div_mod_converse(sy + 1, 400, y / 400 + ERA_SHIFT, y % 400);
            lemma_fundamental_div_mod_converse(sy + 1, 100, y / 100 + 4 * ERA_SHIFT, y % 100);
            lemma_fundamental_div_mod_converse(sy + 1, 4, y / 4 + 100 * ERA_SHIFT, y % 4);
            lemma_fundamental_div_mod(y, 400);
            lemma_fundamental_div_mod(y, 100);
            lemma_fundamental_div_mod(y, 4);
        }
    }
}

proof fn lemma_month_day_unique(m1: int, d1: int, m2: int, d2: int, leap: bool)
    requires
        1 <= m1 <= 12,
        1 <= m2 <= 12,
        1 <= d1 <= (if m1 == 2 { if leap { 29int } else { 28int } } else if m1 == 4 || m1 == 6 || m1 == 9 || m1 == 11 { 30int } else { 31int }),
        1 <= d2 <= (if m2 == 2 { if leap { 29int } else { 28int } } else if m2 == 4 || m2 == 6 || m2 == 9 || m2 == 11 { 30int } else { 31int }),
        month_start(shifted_month(m1)) + d1 == month_start(shifted_month(m2)) + d2,
    ensures
        m1 == m2 && d1 == d2,
{
}

/// Valid dates with the same day count are the same date.
pub proof fn lemma_days_injective(a: Date, b: Date)
    requires
        a.wf(),
        b.wf(),
        days_from_civil(a.year as int, a.month as int, a.day as int) == days_from_civil(
            b.year as int,
            b.month as int,
            b.day as int,
        ),
    ensures
        a == b,
{
    let (ya, ma, da) = (a.year as int, a.month as int, a.day as int);
    let (yb, mb, db) = (b.year as int, b.month as int, b.day as int);
    let sa = shifted_year(ya, ma);
    let sb = shifted_year(yb, mb);
    lemma_days_split(ya, ma, da);
    lemma_days_split(yb, mb, db);
    lemma_day_in_year(ya, ma, da);
    lemma_day_in_year(yb, mb, db);
    if sa < sb {
        lemma_year_start_grows(sa, sb);
    } else if sb < sa {
        lemma_year_start_grows(sb, sa);
    }
    assert(sa == sb);
    assert(month_start(shifted_month(ma)) + da == month_start(shifted_month(mb)) + db);
    if ma <= 2 && mb <= 2 || ma > 2 && mb > 2 {
        assert(ya == yb);
        lemma_month_day_unique(ma, da, mb, db, is_leap_year(ya));
    } else {
        // March to December take the days 0 to 305 of a shifted year,
        // January and February the days from 306 on: no common day.
        assert(false);
    }
}

/// Valid dates and times with the same Unix seconds are the same.
pub proof fn lemma_datetime_seconds_injective(a: DateTime, b: DateTime)
    requires
        a.wf(),
        b.wf(),
        datetime_seconds(a) == datetime_seconds(b),
        a.time.microsecond == b.time.microsecond,
    ensures
        a == b,
{
    let da = days_from_civil(a.date.year as int, a.date.month as int, a.date.day as int);
    let db = days_from_civil(b.date.year as int, b.date.month as int, b.date.day as int);
    assert(da == db);
    lemma_days_injective(a.date, b.date);
}

/// Days from 1970-01-01 to a date.
pub fn days_from_date(d: Date) -> (r: i64)
    ensures
        r == days_from_civil(d.year as int, d.month as int, d.day as int),
{
    let m = d.month as i64;
    let yp: i64 = if m <= 2 {
        d.year as i64 - 1
    } else {
        d.year as i64
    } + 400 * ERA_SHIFT;
    let era = yp / 400;
    let yoe = yp % 400;
    let mp: i64 = if m > 2 {
        m - 3
    } else {
        m + 9
    };
    let doy = (153 * mp + 2) / 5 + d.day as i64 - 1;
    let doe = yoe * 365 + yoe / 4 - yoe / 100 + doy;
    (era - ERA_SHIFT) * 146097 + doe - 719468
}

/// The Unix timestamp of a date and time read as UTC: whole seconds and
/// microseconds.
pub fn datetime_to_timestamp(dt: DateTime) -> (r: (i64, u32))
    ensures
        r.0 == datetime_seconds(dt),
        r.1 == dt.time.microsecond,
{
    let days = days_from_date(dt.date);
    (days * 86400 + dt.time.hour as i64 * 3600 + dt.time.minute as i64 * 60
        + dt.time.second as i64, dt.time.microsecond)
}

} // verus!
