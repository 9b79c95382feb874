//! Calendar types and the temporal parsing cascade.
use vstd::prelude::*;

use chrono::{Datelike, Timelike};

use crate::error::{strings_view, ErrorKind, ErrorView};
use crate::text::{all_white, chars_of, is_blank};

verus! {

pub open spec fn is_leap_year(y: int) -> bool {
    (y % 4 == 0 && y % 100 != 0) || y % 400 == 0
}

pub open spec fn days_in_month(y: int, m: int) -> int {
    if m == 2 {
        if is_leap_year(y) {
            29
        } else {
            28
        }
    } else if m == 4 || m == 6 || m == 9 || m == 11 {
        30
    } else {
        31
    }
}

/// A proleptic Gregorian calendar date.
#[derive(Clone, Copy, Debug, PartialEq, Eq, Structural)]
pub struct Date {
    pub year: i32,
    pub month: u8,
    pub day: u8,
}

impl Date {
    pub open spec fn wf(&self) -> bool {
        1 <= self.month <= 12 && 1 <= self.day <= days_in_month(self.year as int, self.month as int)
    }
}

/// A time of day with microsecond resolution.
#[derive(Clone, Copy, Debug, PartialEq, Eq, Structural)]
pub struct TimeOfDay {
    pub hour: u8,
    pub minute: u8,
    pub second: u8,
    pub microsecond: u32,
}

impl TimeOfDay {
    pub open spec fn wf(&self) -> bool {
        self.hour < 24 && self.minute < 60 && self.second < 60 && self.microsecond < 1_000_000
    }
}

/// A date and a time of day, without a zone.
#[derive(Clone, Copy, Debug, PartialEq, Eq, Structural)]
pub struct DateTime {
    pub date: Date,
    pub time: TimeOfDay,
}

impl DateTime {
    pub open spec fn wf(&self) -> bool {
        self.date.wf() && self.time.wf()
    }
}

/// A clock reading with nanosecond resolution, as chrono reports it. A
/// nanosecond count of a billion or more marks a leap second.
#[derive(Clone, Copy, Debug, PartialEq, Eq, Structural)]
pub struct ClockTime {
    pub hour: u8,
    pub minute: u8,
    pub second: u8,
    pub nanosecond: u32,
}

impl ClockTime {
    pub open spec fn wf(&self) -> bool {
        self.hour < 24 && self.minute < 60 && self.second < 60 && self.nanosecond < 2_000_000_000
    }
}

/// A date with a chrono clock reading.
#[derive(Clone, Copy, Debug, PartialEq, Eq, Structural)]
pub struct ClockReading {
    pub date: Date,
    pub time: ClockTime,
}

impl ClockReading {
    pub open spec fn wf(&self) -> bool {
        self.date.wf() && self.time.wf()
    }
}

/// A clock reading at microsecond resolution; a leap second is folded into
/// the second that carries it.
pub open spec fn time_of_clock(t: ClockTime) -> TimeOfDay {
    TimeOfDay {
        hour: t.hour,
        minute: t.minute,
        second: t.second,
        microsecond: ((t.nanosecond % 1_000_000_000) / 1000) as u32,
    }
}

/// The first instant of a date.
pub open spec fn midnight(d: Date) -> DateTime {
    DateTime { date: d, time: TimeOfDay { hour: 0, minute: 0, second: 0, microsecond: 0 } }
}

pub open spec fn datetime_of_reading(c: ClockReading) -> DateTime {
    DateTime { date: c.date, time: time_of_clock(c.time) }
}

pub fn at_midnight(d: Date) -> (r: DateTime)
    ensures
        r == midnight(d),
        d.wf() ==> r.wf(),
{
    DateTime { date: d, time: TimeOfDay { hour: 0, minute: 0, second: 0, microsecond: 0 } }
}

pub fn clock_to_time(t: ClockTime) -> (r: TimeOfDay)
    requires
        t.wf(),
    ensures
        r == time_of_clock(t),
        r.wf(),
{
    TimeOfDay {
        hour: t.hour,
        minute: t.minute,
        second: t.second,
        microsecond: (t.nanosecond % 1_000_000_000) / 1000,
    }
}

// ---------------------------------------------------------------------------
// Outside parsers

/// What speedate's `Date::parse_str` reads from a text.
pub uninterp spec fn iso_date_of(s: Seq<char>) -> Option<Date>;

/// What speedate's `DateTime::parse_str` reads from a text (its zone offset
/// left aside).
pub uninterp spec fn iso_datetime_of(s: Seq<char>) -> Option<DateTime>;

/// What speedate's `Time::parse_str` reads from a text (its zone offset
/// left aside).
pub uninterp spec fn iso_time_of(s: Seq<char>) -> Option<TimeOfDay>;

/// What chrono's `DateTime::parse_from_rfc3339` reads from a text, moved to
/// UTC.
pub uninterp spec fn rfc3339_utc_of(s: Seq<char>) -> Option<ClockReading>;

/// What chrono's `NaiveDate::parse_from_str` reads from a text with a
/// format.
pub uninterp spec fn formatted_date_of(s: Seq<char>, fmt: Seq<char>) -> Option<Date>;

/// What chrono's `NaiveDateTime::parse_from_str` reads from a text with a
/// format.
pub uninterp spec fn formatted_datetime_of(s: Seq<char>, fmt: Seq<char>) -> Option<ClockReading>;

/// What chrono's `NaiveTime::parse_from_str` reads from a text with a
/// format.
pub uninterp spec fn formatted_time_of(s: Seq<char>, fmt: Seq<char>) -> Option<ClockTime>;

/// Relies on speedate's `Date::parse_str`: a strict ISO-8601 date, or a
/// Unix timestamp of a midnight; a date it returns has a month of 1 to 12
/// and a day within that month.
#[verifier::external_body]
fn iso_date(s: &str) -> (r: Option<Date>)
    ensures
        r == iso_date_of(s@),
        r matches Some(d) ==> d.wf(),
{
    match speedate::Date::parse_str(s) {
        Ok(d) => Some(Date { year: d.year as i32, month: d.month, day: d.day }),
        Err(_) => None,
    }
}

/// Relies on speedate's `DateTime::parse_str`: a strict ISO-8601 date and
/// time, or a Unix timestamp; its date is valid, its hour under 24, its
/// minute and second under 60 and its microsecond under a million.
#[verifier::external_body]
fn iso_datetime(s: &str) -> (r: Option<DateTime>)
    ensures
        r == iso_datetime_of(s@),
        r matches Some(d) ==> d.wf(),
{
    match speedate::DateTime::parse_str(s) {
        Ok(d) => Some(DateTime {
            date: Date { year: d.date.year as i32, month: d.date.month, day: d.date.day },
            time: TimeOfDay {
                hour: d.time.hour,
                minute: d.time.minute,
                second: d.time.second,
                microsecond: d.time.microsecond,
            },
        }),
        Err(_) => None,
    }
}

/// Relies on speedate's `Time::parse_str`: a strict ISO-8601 time of day;
/// its hour is under 24, its minute and second under 60 and its
/// microsecond under a million.
#[verifier::external_body]
fn iso_time(s: &str) -> (r: Option<TimeOfDay>)
    ensures
        r == iso_time_of(s@),
        r matches Some(t) ==> t.wf(),
{
    match speedate::Time::parse_str(s) {
        Ok(t) => Some(
            TimeOfDay { hour: t.hour, minute: t.minute, second: t.second, microsecond: t.microsecond },
        ),
        Err(_) => None,
    }
}

/// Relies on chrono's `DateTime::parse_from_rfc3339` and `with_timezone`:
/// an RFC 3339 date and time with an offset, moved to UTC; chrono's dates
/// and clock readings are always valid.
#[verifier::external_body]
fn rfc3339_utc(s: &str) -> (r: Option<ClockReading>)
    ensures
        r == rfc3339_utc_of(s@),
        r matches Some(c) ==> c.wf(),
{
    match chrono::DateTime::parse_from_rfc3339(s) {
        Ok(d) => {
            let t = d.with_timezone(&chrono::Utc);
            Some(ClockReading {
                date: Date { year: t.year(), month: t.month() as u8, day: t.day() as u8 },
                time: ClockTime {
                    hour: t.hour() as u8,
                    minute: t.minute() as u8,
                    second: t.second() as u8,
                    nanosecond: t.nanosecond(),
                },
            })
        },
        Err(_) => None,
    }
}

/// Relies on chrono's `NaiveDate::parse_from_str`: the whole text must
/// match the format; a `NaiveDate` is always a valid date.
#[verifier::external_body]
fn formatted_date(s: &str, fmt: &str) -> (r: Option<Date>)
    ensures
        r == formatted_date_of(s@, fmt@),
        r matches Some(d) ==> d.wf(),
{
    match chrono::NaiveDate::parse_from_str(s, fmt) {
        Ok(d) => Some(Date { year: d.year(), month: d.month() as u8, day: d.day() as u8 }),
        Err(_) => None,
    }
}

/// Relies on chrono's `NaiveDateTime::parse_from_str`: the whole text must
/// match the format; its date and clock reading are always valid.
#[verifier::external_body]
fn formatted_datetime(s: &str, fmt: &str) -> (r: Option<ClockReading>)
    ensures
        r == formatted_datetime_of(s@, fmt@),
        r matches Some(c) ==> c.wf(),
{
    match chrono::NaiveDateTime::parse_from_str(s, fmt) {
        Ok(t) => Some(ClockReading {
            date: Date { year: t.year(), month: t.month() as u8, day: t.day() as u8 },
            time: ClockTime {
                hour: t.hour() as u8,
                minute: t.minute() as u8,
                second: t.second() as u8,
                nanosecond: t.nanosecond(),
            },
        }),
        Err(_) => None,
    }
}

/// Relies on chrono's `NaiveTime::parse_from_str`: the whole text must
/// match the format; its clock reading is always valid.
#[verifier::external_body]
fn formatted_time(s: &str, fmt: &str) -> (r: Option<ClockTime>)
    ensures
        r == formatted_time_of(s@, fmt@),
        r matches Some(t) ==> t.wf(),
{
    match chrono::NaiveTime::parse_from_str(s, fmt) {
        Ok(t) => Some(ClockTime {
            hour: t.hour() as u8,
            minute: t.minute() as u8,
            second: t.second() as u8,
            nanosecond: t.nanosecond(),
        }),
        Err(_) => None,
    }
}

// ---------------------------------------------------------------------------
// The cascade

/// The fallback formats, in the order in which they are tried.
pub open spec fn builtin_formats() -> Seq<Seq<char>> {
    seq![
        "%Y-%m-%d"@,
        "%m/%d/%Y"@,
        "%m-%d-%Y"@,
        "%d-%m-%Y"@,
        "%Y/%m/%d"@,
        "%Y-%m-%dT%H:%M:%S%.f"@,
        "%Y-%m-%d %H:%M:%S"@,
        "%d/%m/%Y"@,
        "%d.%m.%Y"@,
    ]
}

pub open spec fn opt_view(f: Option<&str>) -> Option<Seq<char>> {
    match f {
        Some(s) => Some(s@),
        None => None,
    }
}

/// The fallback formats with the caller's own format, if any, last.
pub open spec fn formats_for(custom: Option<Seq<char>>) -> Seq<Seq<char>> {
    match custom {
        Some(f) => builtin_formats().push(f),
        None => builtin_formats(),
    }
}

pub open spec fn strs_view(v: Seq<&str>) -> Seq<Seq<char>> {
    v.map_values(|f: &str| f@)
}

/// The fallback formats, then `custom`.
pub fn format_list<'a>(custom: Option<&'a str>) -> (r: Vec<&'a str>)
    ensures
        strs_view(r@) == formats_for(opt_view(custom)),
{
    let mut r: Vec<&'a str> = Vec::new();
    r.push("%Y-%m-%d");
    r.push("%m/%d/%Y");
    r.push("%m-%d-%Y");
    r.push("%d-%m-%Y");
    r.push("%Y/%m/%d");
    r.push("%Y-%m-%dT%H:%M:%S%.f");
    r.push("%Y-%m-%d %H:%M:%S");
    r.push("%d/%m/%Y");
    r.push("%d.%m.%Y");
    proof {
        assert(strs_view(r@) =~= builtin_formats());
    }
    if let Some(f) = custom {
        let ghost before = r@;
        r.push(f);
        proof {
            assert(strs_view(r@) =~= strs_view(before).push(f@));
        }
    }
    r
}

/// The formats as owned strings, for an error report.
fn owned_formats(v: &Vec<&str>) -> (r: Vec<String>)
    ensures
        strings_view(r@) == strs_view(v@),
{
    let mut r: Vec<String> = Vec::new();
    let n = v.len();
    let mut k: usize = 0;
    while k < n
        invariant
            k <= n == v@.len(),
            strings_view(r@) == strs_view(v@.subrange(0, k as int)),
        decreases n - k,
    {
        let s = v[k].to_string();
        let ghost before = r@;
        r.push(s);
        proof {
            assert(strings_view(r@) =~= strings_view(before).push(s@));
            assert(v@.subrange(0, k + 1) =~= v@.subrange(0, k as int).push(v@[k as int]));
            assert(strings_view(r@) =~= strs_view(v@.subrange(0, k + 1)));
        }
        k = k + 1;
    }
    proof {
        assert(v@.subrange(0, n as int) =~= v@);
    }
    r
}

/// The date read by the first format that matches the whole text.
pub open spec fn first_formatted_date(s: Seq<char>, fmts: Seq<Seq<char>>) -> Option<Date>
    decreases fmts.len(),
{
    if fmts.len() == 0 {
        None
    } else {
        match formatted_date_of(s, fmts[0]) {
            Some(d) => Some(d),
            None => first_formatted_date(s, fmts.drop_first()),
        }
    }
}

/// The first format that reads the whole text: as a date and time, or
/// failing that as a date alone, taken at midnight.
pub open spec fn first_formatted_datetime(s: Seq<char>, fmts: Seq<Seq<char>>) -> Option<DateTime>
    decreases fmts.len(),
{
    if fmts.len() == 0 {
        None
    } else {
        match formatted_datetime_of(s, fmts[0]) {
            Some(c) => Some(datetime_of_reading(c)),
            None => match formatted_date_of(s, fmts[0]) {
                Some(d) => Some(midnight(d)),
                None => first_formatted_datetime(s, fmts.drop_first()),
            },
        }
    }
}

pub open spec fn first_formatted_time(s: Seq<char>, fmts: Seq<Seq<char>>) -> Option<ClockTime>
    decreases fmts.len(),
{
    if fmts.len() == 0 {
        None
    } else {
        match formatted_time_of(s, fmts[0]) {
            Some(t) => Some(t),
            None => first_formatted_time(s, fmts.drop_first()),
        }
    }
}

pub open spec fn unparseable(s: Seq<char>, custom: Option<Seq<char>>) -> ErrorView {
    ErrorView::UnparseableTemporal { input: s, formats_tried: formats_for(custom) }
}

/// The outcome of date coercion of a text: empty input is refused first,
/// then the strict ISO path, then the formats in order.
pub open spec fn date_outcome(s: Seq<char>, custom: Option<Seq<char>>) -> Result<Date, ErrorView> {
    if is_blank(s) {
        Err(ErrorView::EmptyInput)
    } else if iso_date_of(s) is Some {
        Ok(iso_date_of(s)->0)
    } else {
        match first_formatted_date(s, formats_for(custom)) {
            Some(d) => Ok(d),
            None => Err(unparseable(s, custom)),
        }
    }
}

/// The outcome of datetime coercion of a text: empty input is refused
/// first, then the strict ISO path (a date alone taken at midnight), then
/// RFC 3339 with an offset (moved to UTC), then the formats in order.
pub open spec fn datetime_outcome(s: Seq<char>, custom: Option<Seq<char>>) -> Result<DateTime, ErrorView> {
    if is_blank(s) {
        Err(ErrorView::EmptyInput)
    } else if iso_datetime_of(s) is Some {
        Ok(iso_datetime_of(s)->0)
    } else if iso_date_of(s) is Some {
        Ok(midnight(iso_date_of(s)->0))
    } else if rfc3339_utc_of(s) is Some {
        Ok(datetime_of_reading(rfc3339_utc_of(s)->0))
    } else {
        match first_formatted_datetime(s, formats_for(custom)) {
            Some(dt) => Ok(dt),
            None => Err(unparseable(s, custom)),
        }
    }
}

/// The outcome of time-of-day coercion of a text: empty input is refused
/// first, then the strict ISO path, then the formats in order.
pub open spec fn time_outcome(s: Seq<char>, custom: Option<Seq<char>>) -> Result<TimeOfDay, ErrorView> {
    if is_blank(s) {
        Err(ErrorView::EmptyInput)
    } else if iso_time_of(s) is Some {
        Ok(iso_time_of(s)->0)
    } else {
        match first_formatted_time(s, formats_for(custom)) {
            Some(t) => Ok(time_of_clock(t)),
            None => Err(unparseable(s, custom)),
        }
    }
}

pub open spec fn result_view<T>(r: Result<T, ErrorKind>) -> Result<T, ErrorView> {
    match r {
        Ok(v) => Ok(v),
        Err(e) => Err(e@),
    }
}

fn unparseable_error(input: &str, formats: &Vec<&str>) -> (r: ErrorKind)
    ensures
        r@ == (ErrorView::UnparseableTemporal { input: input@, formats_tried: strs_view(formats@) }),
{
    ErrorKind::UnparseableTemporal { input: input.to_string(), formats_tried: owned_formats(formats) }
}

/// Parses a date, trying the strict ISO form first, then each fallback
/// format, then `custom_format`.
pub fn to_date(input: &str, custom_format: Option<&str>) -> (r: Result<Date, ErrorKind>)
    ensures
        result_view(r) == date_outcome(input@, opt_view(custom_format)),
        r matches Ok(d) ==> d.wf(),
{
    if all_white(&chars_of(input)) {
        return Err(ErrorKind::EmptyInput);
    }
    if let Some(d) = iso_date(input) {
        return Ok(d);
    }
    let formats = format_list(custom_format);
    let ghost fs = strs_view(formats@);
    let n = formats.len();
    let mut k: usize = 0;
    proof {
        assert(fs.subrange(0, n as int) =~= fs);
    }
    while k < n
        invariant
            k <= n == formats@.len(),
            fs == strs_view(formats@),
            fs == formats_for(opt_view(custom_format)),
            !is_blank(input@),
            iso_date_of(input@) is None,
            first_formatted_date(input@, fs) == first_formatted_date(input@, fs.subrange(k as int, n as int)),
        decreases n - k,
    {
        proof {
            assert(fs.subrange(k as int, n as int).drop_first() =~= fs.subrange(k + 1, n as int));
            assert(fs.subrange(k as int, n as int)[0] == formats@[k as int]@);
        }
        if let Some(d) = formatted_date(input, formats[k]) {
            return Ok(d);
        }
        k = k + 1;
    }
    Err(unparseable_error(input, &formats))
}

/// Parses a date and time, trying the strict ISO form first, then RFC 3339
/// with an offset (the result moved to UTC), then each fallback format,
/// then `custom_format`. Where a form reads a date but no time, the result
/// is that date at midnight.
pub fn to_datetime(input: &str, custom_format: Option<&str>) -> (r: Result<DateTime, ErrorKind>)
    ensures
        result_view(r) == datetime_outcome(input@, opt_view(custom_format)),
        r matches Ok(d) ==> d.wf(),
{
    if all_white(&chars_of(input)) {
        return Err(ErrorKind::EmptyInput);
    }
    if let Some(d) = iso_datetime(input) {
        return Ok(d);
    }
    if let Some(d) = iso_date(input) {
        return Ok(at_midnight(d));
    }
    if let Some(c) = rfc3339_utc(input) {
        return Ok(DateTime { date: c.date, time: clock_to_time(c.time) });
    }
    let formats = format_list(custom_format);
    let ghost fs = strs_view(formats@);
    let n = formats.len();
    let mut k: usize = 0;
    proof {
        assert(fs.subrange(0, n as int) =~= fs);
    }
    while k < n
        invariant
            k <= n == formats@.len(),
            fs == strs_view(formats@),
            fs == formats_for(opt_view(custom_format)),
            !is_blank(input@),
            iso_datetime_of(input@) is None,
            iso_date_of(input@) is None,
            rfc3339_utc_of(input@) is None,
            first_formatted_datetime(input@, fs) == first_formatted_datetime(
                input@,
                fs.subrange(k as int, n as int),
            ),
        decreases n - k,
    {
        proof {
            assert(fs.subrange(k as int, n as int).drop_first() =~= fs.subrange(k + 1, n as int));
            assert(fs.subrange(k as int, n as int)[0] == formats@[k as int]@);
        }
        if let Some(c) = formatted_datetime(input, formats[k]) {
            return Ok(DateTime { date: c.date, time: clock_to_time(c.time) });
        }
        if let Some(d) = formatted_date(input, formats[k]) {
            return Ok(at_midnight(d));
        }
        k = k + 1;
    }
    Err(unparseable_error(input, &formats))
}

/// Parses a time of day, trying the strict ISO form first, then each
/// fallback format, then `custom_format`.
pub fn to_time(input: &str, custom_format: Option<&str>) -> (r: Result<TimeOfDay, ErrorKind>)
    ensures
        result_view(r) == time_outcome(input@, opt_view(custom_format)),
        r matches Ok(t) ==> t.wf(),
{
    if all_white(&chars_of(input)) {
        return Err(ErrorKind::EmptyInput);
    }
    if let Some(t) = iso_time(input) {
        return Ok(t);
    }
    let formats = format_list(custom_format);
    let ghost fs = strs_view(formats@);
    let n = formats.len();
    let mut k: usize = 0;
    proof {
        assert(fs.subrange(0, n as int) =~= fs);
    }
    while k < n
        invariant
            k <= n == formats@.len(),
            fs == strs_view(formats@),
            fs == formats_for(opt_view(custom_format)),
            !is_blank(input@),
            iso_time_of(input@) is None,
            first_formatted_time(input@, fs) == first_formatted_time(input@, fs.subrange(k as int, n as int)),
        decreases n - k,
    {
        proof {
            assert(fs.subrange(k as int, n as int).drop_first() =~= fs.subrange(k + 1, n as int));
            assert(fs.subrange(k as int, n as int)[0] == formats@[k as int]@);
        }
        if let Some(t) = formatted_time(input, formats[k]) {
            return Ok(clock_to_time(t));
        }
        k = k + 1;
    }
    Err(unparseable_error(input, &formats))
}

// ---------------------------------------------------------------------------
// Laws of the cascade

/// Empty or all-whitespace input fails with `EmptyInput` for dates, date
/// times and times alike, whatever custom format is given.
pub proof fn lemma_blank_input_is_empty(s: Seq<char>, custom: Option<Seq<char>>)
    requires
        is_blank(s),
    ensures
        date_outcome(s, custom) == Err::<Date, ErrorView>(ErrorView::EmptyInput),
        datetime_outcome(s, custom) == Err::<DateTime, ErrorView>(ErrorView::EmptyInput),
        time_outcome(s, custom) == Err::<TimeOfDay, ErrorView>(ErrorView::EmptyInput),
{
}

proof fn lemma_first_date_found(s: Seq<char>, fmts: Seq<Seq<char>>, f: Seq<char>)
    requires
        fmts.contains(f),
        formatted_date_of(s, f) is Some,
    ensures
        first_formatted_date(s, fmts) is Some,
    decreases fmts.len(),
{
    if fmts[0] != f {
        let i = choose|i: int| 0 <= i < fmts.len() && fmts[i] == f;
        assert(fmts.drop_first()[i - 1] == f);
        lemma_first_date_found(s, fmts.drop_first(), f);
    }
}

proof fn lemma_first_datetime_found(s: Seq<char>, fmts: Seq<Seq<char>>, f: Seq<char>)
    requires
        fmts.contains(f),
        formatted_datetime_of(s, f) is Some || formatted_date_of(s, f) is Some,
    ensures
        first_formatted_datetime(s, fmts) is Some,
    decreases fmts.len(),
{
    if fmts[0] != f {
        let i = choose|i: int| 0 <= i < fmts.len() && fmts[i] == f;
        assert(fmts.drop_first()[i - 1] == f);
        lemma_first_datetime_found(s, fmts.drop_first(), f);
    }
}

proof fn lemma_first_time_found(s: Seq<char>, fmts: Seq<Seq<char>>, f: Seq<char>)
    requires
        fmts.contains(f),
        formatted_time_of(s, f) is Some,
    ensures
        first_formatted_time(s, fmts) is Some,
    decreases fmts.len(),
{
    if fmts[0] != f {
        let i = choose|i: int| 0 <= i < fmts.len() && fmts[i] == f;
        assert(fmts.drop_first()[i - 1] == f);
        lemma_first_time_found(s, fmts.drop_first(), f);
    }
}

/// Every accepted format is honoured: a non-blank text that some format of
/// the list (the caller's own included) reads is accepted (for a date and
/// time, a reading of the date alone counts), and a text that the strict
/// ISO path reads gets exactly that reading, whatever the list.
pub proof fn lemma_temporal_formats_accepted(s: Seq<char>, custom: Option<Seq<char>>, f: Seq<char>)
    requires
        !is_blank(s),
    ensures
        formats_for(custom).contains(f) && formatted_date_of(s, f) is Some ==> date_outcome(s, custom) is Ok,
        formats_for(custom).contains(f) && (formatted_datetime_of(s, f) is Some || formatted_date_of(s, f) is Some)
            ==> datetime_outcome(s, custom) is Ok,
        formats_for(custom).contains(f) && formatted_time_of(s, f) is Some ==> time_outcome(s, custom) is Ok,
        iso_date_of(s) matches Some(d) ==> date_outcome(s, custom) == Ok::<Date, ErrorView>(d),
        iso_datetime_of(s) matches Some(d) ==> datetime_outcome(s, custom) == Ok::<DateTime, ErrorView>(d),
        iso_datetime_of(s) is None && iso_date_of(s) is Some ==> datetime_outcome(s, custom) == Ok::<
            DateTime,
            ErrorView,
        >(midnight(iso_date_of(s)->0)),
        iso_time_of(s) matches Some(t) ==> time_outcome(s, custom) == Ok::<TimeOfDay, ErrorView>(t),
{
    if formats_for(custom).contains(f) {
        if formatted_date_of(s, f) is Some {
            lemma_first_date_found(s, formats_for(custom), f);
        }
        if formatted_datetime_of(s, f) is Some || formatted_date_of(s, f) is Some {
            lemma_first_datetime_found(s, formats_for(custom), f);
        }
        if formatted_time_of(s, f) is Some {
            lemma_first_time_found(s, formats_for(custom), f);
        }
    }
}

} // verus!
