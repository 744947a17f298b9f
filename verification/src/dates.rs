//! Calendar dates and clock times, and the calls into `chrono` that read,
//! count and print them. Dates are held as plain year, month and day.
use chrono::{Datelike, TimeZone, Timelike};
use vstd::prelude::*;

verus! {

/// A day of the proleptic Gregorian calendar.
#[derive(Clone, Copy, Debug, PartialEq, Eq, Structural)]
pub struct Date {
    pub year: i32,
    pub month: u32,
    pub day: u32,
}

/// A time of day to the minute.
#[derive(Clone, Copy, Debug, PartialEq, Eq, Structural)]
pub struct Time {
    pub hour: u32,
    pub minute: u32,
}

/// A moment as the Mac's clock shows it in its own time zone.
#[derive(Clone, Copy, Debug, PartialEq, Eq, Structural)]
pub struct LocalTime {
    pub date: Date,
    pub hour: u32,
    pub minute: u32,
}

/// A leap year of the proleptic Gregorian calendar.
pub open spec fn leap_year(year: int) -> bool {
    year % 4 == 0 && (year % 100 != 0 || year % 400 == 0)
}

/// The days of a month of the proleptic Gregorian calendar.
pub open spec fn month_length(year: int, month: int) -> int {
    if month == 2 {
        if leap_year(year) {
            29
        } else {
            28
        }
    } else if month == 4 || month == 6 || month == 9 || month == 11 {
        30
    } else {
        31
    }
}

/// A date of the proleptic Gregorian calendar within `chrono`'s years.
pub open spec fn is_calendar_date(year: i32, month: u32, day: u32) -> bool {
    &&& MIN_YEAR <= year <= MAX_YEAR
    &&& 1 <= month <= 12
    &&& 1 <= day <= month_length(year as int, month as int)
}

// ----- The day numbering --------------------------------------------------------

/// Dividing by `k` steps up by one exactly at the multiples of `k`.
proof fn lemma_div_step(y: int, k: int)
    requires
        k > 0,
    ensures
        y / k - (y - 1) / k == (if y % k == 0 {
            1int
        } else {
            0int
        }),
{
    let q = y / k;
    let r = y % k;
    vstd::arithmetic::div_mod::lemma_fundamental_div_mod(y, k);
    vstd::arithmetic::div_mod::lemma_mod_bound(y, k);
    assert(k * q == q * k) by (nonlinear_arith);
    if r > 0 {
        vstd::arithmetic::div_mod::lemma_fundamental_div_mod_converse(y - 1, k, q, r - 1);
    } else {
        assert((q - 1) * k == q * k - k) by (nonlinear_arith);
        vstd::arithmetic::div_mod::lemma_fundamental_div_mod_converse(y - 1, k, q - 1, k - 1);
    }
}

/// A multiple of `a * b` is a multiple of `b`.
proof fn lemma_multiple_of_factor(y: int, a: int, b: int)
    requires
        a > 0,
        b > 0,
        y % (a * b) == 0,
    ensures
        y % b == 0,
{
    assert(a * b > 0) by (nonlinear_arith)
        requires
            a > 0,
            b > 0,
    ;
    vstd::arithmetic::div_mod::lemma_fundamental_div_mod(y, a * b);
    let q = y / (a * b);
    assert(y == (q * a) * b) by (nonlinear_arith)
        requires
            y == (a * b) * q + 0,
    ;
    vstd::arithmetic::div_mod::lemma_fundamental_div_mod_converse(y, b, q * a, 0);
}

/// A year has 365 days, 366 in a leap year.
proof fn lemma_year_length(y: int)
    ensures
        days_before_year(y + 1) == days_before_year(y) + 365 + (if leap_year(y) {
            1int
        } else {
            0int
        }),
        days_before_month(y, 13) == 365 + (if leap_year(y) {
            1int
        } else {
            0int
        }),
{
    lemma_div_step(y, 4);
    lemma_div_step(y, 100);
    lemma_div_step(y, 400);
    if y % 400 == 0 {
        lemma_multiple_of_factor(y, 4, 100);
    }
    if y % 100 == 0 {
        lemma_multiple_of_factor(y, 25, 4);
    }
    reveal_with_fuel(days_before_month, 13);
}

/// Counting the months' days, later months start later.
proof fn lemma_months_in_order(y: int, m1: int, m2: int)
    requires
        1 <= m1 <= m2,
    ensures
        days_before_month(y, m1) <= days_before_month(y, m2),
        m1 < m2 ==> days_before_month(y, m1) + month_length(y, m1) <= days_before_month(y, m2),
    decreases m2 - m1,
{
    if m1 < m2 {
        lemma_months_in_order(y, m1, m2 - 1);
    }
}

/// A later year starts later: every day of year `y1` comes before the start
/// of a later year `y2`.
proof fn lemma_years_in_order(y1: int, y2: int)
    requires
        y1 < y2,
    ensures
        days_before_year(y1) + days_before_month(y1, 13) <= days_before_year(y2),
    decreases y2 - y1,
{
    lemma_year_length(y1);
    if y1 + 1 < y2 {
        lemma_years_in_order(y1 + 1, y2);
        lemma_year_length(y1 + 1);
    }
}

/// A calendar date lies within its year's days.
proof fn lemma_date_within_year(d: Date)
    requires
        d.valid(),
    ensures
        days_before_year(d.year as int) < d.days() <= days_before_year(d.year as int)
            + days_before_month(d.year as int, 13),
{
    lemma_months_in_order(d.year as int, d.month as int, 13);
    lemma_months_in_order(d.year as int, 1, d.month as int);
}

/// Day numbers follow the calendar's order: a date before another has the
/// smaller number, so different dates have different numbers.
pub proof fn law_day_numbers_follow_the_calendar(a: Date, b: Date)
    requires
        a.valid(),
        b.valid(),
    ensures
        (a.year < b.year || (a.year == b.year && a.month < b.month) || (a.year == b.year && a.month
            == b.month && a.day < b.day)) ==> a.days() < b.days(),
        a.days() == b.days() ==> a == b,
{
    lemma_date_within_year(a);
    lemma_date_within_year(b);
    if a.year < b.year {
        lemma_years_in_order(a.year as int, b.year as int);
    }
    if b.year < a.year {
        lemma_years_in_order(b.year as int, a.year as int);
    }
    if a.year == b.year && a.month < b.month {
        lemma_months_in_order(a.year as int, a.month as int, b.month as int);
    }
    if a.year == b.year && b.month < a.month {
        lemma_months_in_order(a.year as int, b.month as int, a.month as int);
    }
}

/// The day after a calendar date, other than `chrono`'s last: one more day
/// number.
proof fn lemma_next_date(d: Date) -> (e: Date)
    requires
        d.valid(),
        d.days() < MAX_DAYS,
    ensures
        e.valid(),
        e.days() == d.days() + 1,
{
    let y = d.year as int;
    if (d.day as int) < month_length(y, d.month as int) {
        Date { year: d.year, month: d.month, day: (d.day + 1) as u32 }
    } else if d.month < 12 {
        let e = Date { year: d.year, month: (d.month + 1) as u32, day: 1 };
        assert(days_before_month(y, d.month + 1) == days_before_month(y, d.month as int) + month_length(
            y,
            d.month as int,
        ));
        e
    } else {
        lemma_year_length(y);
        reveal_with_fuel(days_before_month, 13);
        if d.year == MAX_YEAR {
            assert(d.days() == MAX_DAYS);
        }
        Date { year: (d.year + 1) as i32, month: 1, day: 1 }
    }
}

/// Every day number from `MIN_DAYS` to `MAX_DAYS` is some calendar date's.
proof fn lemma_day_number_has_a_date(n: int)
    requires
        MIN_DAYS <= n <= MAX_DAYS,
    ensures
        exists|d: Date| d.valid() && d.days() == n,
    decreases n - MIN_DAYS,
{
    if n == MIN_DAYS {
        let d = Date { year: MIN_YEAR, month: 1, day: 1 };
        assert(d.valid() && d.days() == n);
    } else {
        lemma_day_number_has_a_date(n - 1);
        let d = choose|d: Date| d.valid() && d.days() == n - 1;
        let e = lemma_next_date(d);
        assert(e.valid() && e.days() == n);
    }
}

/// The date of a day number is the calendar date with that number: the one
/// date a calendar date's own number gives back is itself, and the date of
/// any number within `chrono`'s range has that number.
pub proof fn law_date_of_day_number(d: Date, n: int)
    requires
        d.valid(),
    ensures
        date_from_days(d.days()) == Some(d),
        MIN_DAYS <= n <= MAX_DAYS ==> (date_from_days(n) matches Some(e) && e.valid() && e.days() == n),
{
    lemma_date_within_year(d);
    assert(d.valid() && d.days() == d.days());
    let c = choose|x: Date| x.valid() && x.days() == d.days();
    law_day_numbers_follow_the_calendar(c, d);
    if MIN_DAYS <= d.days() <= MAX_DAYS {
    } else {
        // Every calendar date's number lies in chrono's range.
        lemma_day_range(d);
    }
    if MIN_DAYS <= n <= MAX_DAYS {
        lemma_day_number_has_a_date(n);
    }
}

/// A calendar date's number lies from `MIN_DAYS` to `MAX_DAYS`.
proof fn lemma_day_range(d: Date)
    requires
        d.valid(),
    ensures
        MIN_DAYS <= d.days() <= MAX_DAYS,
{
    let first = Date { year: MIN_YEAR, month: 1, day: 1 };
    let last = Date { year: MAX_YEAR, month: 12, day: 31 };
    reveal_with_fuel(days_before_month, 13);
    assert(first.valid() && first.days() == MIN_DAYS);
    assert(last.valid() && last.days() == MAX_DAYS);
    law_day_numbers_follow_the_calendar(first, d);
    law_day_numbers_follow_the_calendar(d, last);
}

/// The days of the months before `month` in `year`.
pub open spec fn days_before_month(year: int, month: int) -> int
    decreases month,
{
    if month <= 1 {
        0
    } else {
        days_before_month(year, month - 1) + month_length(year, month - 1)
    }
}

/// The days of the years before `year` since year 1 (negative before it).
pub open spec fn days_before_year(year: int) -> int {
    let y = year - 1;
    365 * y + y / 4 - y / 100 + y / 400
}

/// The day number of a date: January 1 of year 1 is day 1.
pub open spec fn days_from_ce(year: i32, month: u32, day: u32) -> int {
    days_before_year(year as int) + days_before_month(year as int, month as int) + day
}

/// The date with this day number, within `chrono`'s range. Each day
/// number there belongs to exactly one date.
pub open spec fn date_from_days(days: int) -> Option<Date> {
    if MIN_DAYS <= days <= MAX_DAYS {
        Some(choose|d: Date| d.valid() && d.days() == days)
    } else {
        None
    }
}

/// The weekday of a date, counted from Monday as 0: day 1 of the proleptic
/// Gregorian calendar, January 1 of year 1, was a Monday.
pub open spec fn weekday_from_monday(year: i32, month: u32, day: u32) -> int {
    (days_from_ce(year, month, day) - 1) % 7
}

/// The first year `chrono` represents.
pub const MIN_YEAR: i32 = -262_143;

/// The last year `chrono` represents.
pub const MAX_YEAR: i32 = 262_142;

/// The day number of `chrono`'s first date, January 1 of `MIN_YEAR`.
pub const MIN_DAYS: i32 = -95_746_129;

/// The day number of `chrono`'s last date, December 31 of `MAX_YEAR`.
pub const MAX_DAYS: i32 = 95_745_399;

/// The date `chrono` reads from `text` in the layout `format`.
pub uninterp spec fn parsed_date(text: Seq<char>, format: Seq<char>) -> Option<Date>;

/// The time of day `chrono` reads from `text` in the layout `format`.
pub uninterp spec fn parsed_time(text: Seq<char>, format: Seq<char>) -> Option<Time>;

/// The text `chrono` prints for a date in the layout `format`.
pub uninterp spec fn formatted_date(year: i32, month: u32, day: u32, format: Seq<char>) -> Seq<char>;

impl Date {
    pub open spec fn valid(self) -> bool {
        is_calendar_date(self.year, self.month, self.day)
    }

    pub open spec fn days(self) -> int {
        days_from_ce(self.year, self.month, self.day)
    }

    /// The date lies a week or more inside `chrono`'s range: not in the
    /// first six days of `MIN_YEAR` nor the last six of `MAX_YEAR`.
    pub open spec fn week_inside(self) -> bool {
        &&& !(self.year == MIN_YEAR && self.month == 1 && self.day < 7)
        &&& !(self.year == MAX_YEAR && self.month == 12 && self.day > 25)
    }

    /// The date's month lies inside `chrono`'s range with room for a
    /// six-week grid: not January of `MIN_YEAR` nor December of `MAX_YEAR`.
    pub open spec fn month_inside(self) -> bool {
        &&& !(self.year == MIN_YEAR && self.month == 1)
        &&& !(self.year == MAX_YEAR && self.month == 12)
    }

    /// Room for every view of the Calendar page: the month's grid, and the
    /// agenda's 43 days, so not after November 18 of `MAX_YEAR`.
    pub open spec fn view_inside(self) -> bool {
        &&& self.month_inside()
        &&& !(self.year == MAX_YEAR && self.month == 11 && self.day > 18)
    }
}

impl Time {
    pub open spec fn valid(self) -> bool {
        self.hour < 24 && self.minute < 60
    }
}

/// The layouts this library prints dates in.
pub open spec fn date_format_known(format: Seq<char>) -> bool {
    ||| format == "%b %-d, %Y"@
    ||| format == "%a, %b %-d"@
    ||| format == "%a, %b %-d, %Y"@
    ||| format == "%B %Y"@
    ||| format == "%b %-d"@
    ||| format == "%-d, %Y"@
    ||| format == "%a"@
    ||| format == "%a · %b"@
}

/// `NaiveDate::from_ymd_opt`: the date, exactly when it is a date of the
/// proleptic Gregorian calendar within `chrono`'s years.
#[verifier::external_body]
pub(crate) fn date(year: i32, month: u32, day: u32) -> (r: Option<Date>)
    ensures
        r is Some <==> is_calendar_date(year, month, day),
        r matches Some(d) ==> d == (Date { year, month, day }),
{
    match chrono::NaiveDate::from_ymd_opt(year, month, day) {
        Some(_) => Some(Date { year, month, day }),
        None => None,
    }
}

/// `Datelike::num_days_from_ce`: the date's day number, as
/// `days_from_ce` counts it. Day numbers run on by one a day from
/// `MIN_DAYS` to `MAX_DAYS`, and `NaiveDate::from_num_days_from_ce_opt`
/// gives the date back; the clauses below place the first and last months
/// of `chrono`'s range (January has 31 days, November 30, December 31).
#[verifier::external_body]
pub(crate) fn days(d: Date) -> (r: i32)
    requires
        d.valid(),
    ensures
        r == days_from_ce(d.year, d.month, d.day),
        MIN_DAYS <= r <= MAX_DAYS,
        date_from_days(r as int) == Some(d),
        d.year == MIN_YEAR && d.month == 1 ==> r == MIN_DAYS + d.day - 1,
        !(d.year == MIN_YEAR && d.month == 1) ==> r >= MIN_DAYS + 31,
        d.year == MAX_YEAR && d.month == 12 ==> r == MAX_DAYS + d.day - 31,
        d.year == MAX_YEAR && d.month == 11 ==> r == MAX_DAYS + d.day - 61 && r <= MAX_DAYS - 31,
        !(d.year == MAX_YEAR && (d.month == 11 || d.month == 12)) ==> r <= MAX_DAYS - 61,
{
    chrono::NaiveDate::from_ymd_opt(d.year, d.month, d.day).unwrap().num_days_from_ce()
}

/// `NaiveDate::from_num_days_from_ce_opt`: the date of a day number, for
/// exactly the numbers from `MIN_DAYS` to `MAX_DAYS`: the one calendar date
/// that `days_from_ce` gives that number.
#[verifier::external_body]
pub(crate) fn from_days(n: i32) -> (r: Option<Date>)
    ensures
        r == date_from_days(n as int),
        r matches Some(d) ==> is_calendar_date(d.year, d.month, d.day) && days_from_ce(
            d.year,
            d.month,
            d.day,
        ) == n,
        r is Some <==> MIN_DAYS <= n <= MAX_DAYS,
{
    match chrono::NaiveDate::from_num_days_from_ce_opt(n) {
        Some(d) => Some(Date { year: d.year(), month: d.month(), day: d.day() }),
        None => None,
    }
}

/// `Weekday::num_days_from_monday` of the date's weekday: the proleptic
/// Gregorian weekday, Monday for day number 1.
#[verifier::external_body]
pub(crate) fn weekday(d: Date) -> (r: u32)
    requires
        d.valid(),
    ensures
        r == weekday_from_monday(d.year, d.month, d.day),
        r < 7,
{
    chrono::NaiveDate::from_ymd_opt(d.year, d.month, d.day).unwrap().weekday().num_days_from_monday()
}

/// `NaiveDate::parse_from_str`: the date `text` holds in the layout `format`.
#[verifier::external_body]
pub(crate) fn parse_date_as(text: &str, format: &str) -> (r: Option<Date>)
    ensures
        r == parsed_date(text@, format@),
        r matches Some(d) ==> d.valid(),
{
    match chrono::NaiveDate::parse_from_str(text, format) {
        Ok(d) => Some(Date { year: d.year(), month: d.month(), day: d.day() }),
        Err(_) => None,
    }
}

/// `NaiveTime::parse_from_str`: the time `text` holds in the layout `format`.
#[verifier::external_body]
pub(crate) fn parse_time_as(text: &str, format: &str) -> (r: Option<Time>)
    ensures
        r == parsed_time(text@, format@),
        r matches Some(t) ==> t.valid(),
{
    match chrono::NaiveTime::parse_from_str(text, format) {
        Ok(t) => Some(Time { hour: t.hour(), minute: t.minute() }),
        Err(_) => None,
    }
}

/// `NaiveDate::format`: the date printed in one of this library's layouts.
#[verifier::external_body]
pub(crate) fn format_date(d: Date, format: &str) -> (r: String)
    requires
        d.valid(),
        date_format_known(format@),
    ensures
        r@ == formatted_date(d.year, d.month, d.day, format@),
{
    chrono::NaiveDate::from_ymd_opt(d.year, d.month, d.day).unwrap().format(format).to_string()
}

/// The day number of January 1, 1970, the Unix epoch.
pub const EPOCH_DAYS: i64 = 719_163;

/// `chrono` holds the moment `seconds` after the Unix epoch: its UTC day
/// lies from `MIN_DAYS` to `MAX_DAYS`.
pub open spec fn holds_moment(seconds: int) -> bool {
    MIN_DAYS <= seconds / 86_400 + EPOCH_DAYS <= MAX_DAYS
}

/// The Unix seconds a local date and time would have in UTC.
pub open spec fn naive_seconds(d: Date, t: Time) -> int {
    (d.days() - EPOCH_DAYS) * 86_400 + t.hour * 3_600 + t.minute * 60
}

/// A local reading: a calendar date and a time of day.
pub open spec fn reading_ok(t: LocalTime) -> bool {
    t.date.valid() && t.hour < 24 && t.minute < 60
}

/// The Unix seconds a local reading would have in UTC.
pub open spec fn reading_seconds(t: LocalTime) -> int {
    naive_seconds(t.date, Time { hour: t.hour, minute: t.minute })
}

/// `t` is a local reading of the moment `seconds`: a zone's offset is
/// under a day either way, and the reading drops the seconds of the minute.
pub open spec fn reads_moment(t: LocalTime, seconds: int) -> bool {
    reading_ok(t) && seconds - 86_460 < reading_seconds(t) < seconds + 86_400
}

/// The local time `d` at `t` reads as a moment within a day of `s`'s, or
/// `s` is 0 (the zone skipped it).
pub open spec fn near_or_skipped(s: int, d: Date, t: Time) -> bool {
    s == 0 || naive_seconds(d, t) - 86_400 < s < naive_seconds(d, t) + 86_400
}

/// Midnight.
pub open spec fn midnight() -> Time {
    Time { hour: 0, minute: 0 }
}

/// The text `chrono`'s `DateTime::format` prints, in the layout `format`,
/// for a moment whose local reading is this date, hour and minute.
pub uninterp spec fn formatted_moment(year: i32, month: u32, day: u32, hour: u32, minute: u32, format: Seq<char>) -> Seq<char>;

/// A local reading printed in the layout `format`.
pub open spec fn stamp_text(t: LocalTime, format: Seq<char>) -> Seq<char> {
    formatted_moment(t.date.year, t.date.month, t.date.day, t.hour, t.minute, format)
}

/// `DateTime::from_timestamp` of `seconds`, as the Mac's clock reads it in
/// its own zone (`with_timezone(&Local)`), or `None` where chrono has no
/// such moment. What it reads depends on the machine's time zone, so no
/// clause names it; the zone's offset (`FixedOffset`) is under a day, so
/// the reading lies within a day of the moment. Near `chrono`'s last moment
/// a zone east of UTC reads a year past `MAX_YEAR`, so the date is a
/// calendar date only within about 250,000 years.
#[verifier::external_body]
fn local_opt(seconds: i64) -> (r: Option<LocalTime>)
    ensures
        r is Some <==> holds_moment(seconds as int),
        -8_000_000_000_000 <= seconds <= 8_000_000_000_000 ==> r is Some && reads_moment(
            r->0,
            seconds as int,
        ),
        r is Some ==> r->0.hour < 24 && r->0.minute < 60,
{
    chrono::DateTime::from_timestamp(seconds, 0).map(|utc| {
        let t = utc.with_timezone(&chrono::Local);
        LocalTime {
            date: Date { year: t.year(), month: t.month(), day: t.day() },
            hour: t.hour(),
            minute: t.minute(),
        }
    })
}

/// The moment `seconds` after the Unix epoch on the Mac's clock; a moment
/// chrono cannot hold reads as the epoch. What it reads depends on the
/// machine's time zone; it lies within a day of the moment.
pub fn local(seconds: i64) -> (r: LocalTime)
    ensures
        -8_000_000_000_000 <= seconds <= 8_000_000_000_000 ==> reads_moment(r, seconds as int),
        !holds_moment(seconds as int) ==> reads_moment(r, 0),
        r.hour < 24,
        r.minute < 60,
{
    match local_opt(seconds) {
        Some(t) => t,
        None => match local_opt(0) {
            Some(t) => t,
            None => {
                proof {
                    assert(holds_moment(0));
                }
                LocalTime { date: Date { year: 1970, month: 1, day: 1 }, hour: 0, minute: 0 }
            },
        },
    }
}

/// Local midnight at the start of `d`, in Unix seconds, or 0 when the zone
/// skips it. Where midnight falls depends on the machine's time zone; a
/// zone's offset is under a day, so it lies within a day of UTC midnight.
pub fn day_start(d: Date) -> (r: i64)
    requires
        d.valid(),
    ensures
        -9_000_000_000_000 <= r <= 9_000_000_000_000,
        near_or_skipped(r as int, d, midnight()),
{
    match at(d, Time { hour: 0, minute: 0 }) {
        Some(s) => s,
        None => 0,
    }
}

/// `TimeZone::from_local_datetime` on the Mac's zone, its earliest reading,
/// as Unix seconds: `None` when the zone skips that local time. Where it
/// falls depends on the machine's time zone, so no clause names it; a
/// zone's offset (`FixedOffset`) is under a day, so the moment lies within
/// a day of the same reading in UTC.
#[verifier::external_body]
pub fn at(d: Date, t: Time) -> (r: Option<i64>)
    requires
        d.valid(),
        t.valid(),
    ensures
        r matches Some(s) ==> -9_000_000_000_000 <= s <= 9_000_000_000_000,
        r matches Some(s) ==> naive_seconds(d, t) - 86_400 < s < naive_seconds(d, t) + 86_400,
{
    let date = chrono::NaiveDate::from_ymd_opt(d.year, d.month, d.day).unwrap();
    let time = chrono::NaiveTime::from_hms_opt(t.hour, t.minute, 0).unwrap();
    chrono::Local.from_local_datetime(&date.and_time(time)).earliest().map(|t| t.timestamp())
}

/// The layouts this library prints moments in.
pub open spec fn stamp_format_known(format: Seq<char>) -> bool {
    format == "%Y-%m-%d %H:%M"@ || format == "%b %-d, %H:%M"@
}

/// `DateTime::format` of the moment `seconds` after the Unix epoch on the
/// Mac's clock, in one of this library's layouts, with the local reading it
/// prints, or `None` where chrono has no such moment
/// (`DateTime::from_timestamp`). The layouts print the local date, hour and
/// minute only. What the clock reads depends on the machine's time zone, so
/// no clause names it; the zone's offset is under a day, so the reading
/// lies within a day of the moment.
#[verifier::external_body]
pub(crate) fn local_stamp(seconds: i64, format: &str) -> (r: Option<(String, LocalTime)>)
    requires
        stamp_format_known(format@),
    ensures
        r is Some <==> holds_moment(seconds as int),
        r matches Some((text, t)) ==> text@ == formatted_moment(
            t.date.year,
            t.date.month,
            t.date.day,
            t.hour,
            t.minute,
            format@,
        ) && t.hour < 24 && t.minute < 60,
        r matches Some((_, t)) ==> (-8_000_000_000_000 <= seconds <= 8_000_000_000_000 ==> reads_moment(
            t,
            seconds as int,
        )),
{
    chrono::DateTime::from_timestamp(seconds, 0).map(|utc| {
        let t = utc.with_timezone(&chrono::Local);
        (
            t.format(format).to_string(),
            LocalTime {
                date: Date { year: t.year(), month: t.month(), day: t.day() },
                hour: t.hour(),
                minute: t.minute(),
            },
        )
    })
}

/// The current Unix time in seconds, from the system clock.
#[verifier::external_body]
pub fn now() -> (r: i64) {
    chrono::Utc::now().timestamp()
}

/// Today's date on the Mac's clock.
#[verifier::external_body]
pub fn today() -> (r: Date)
    ensures
        r.valid(),
{
    let d = chrono::Local::now().date_naive();
    Date { year: d.year(), month: d.month(), day: d.day() }
}

} // verus!
