//! Calendar events and the date arithmetic the Dashboard and the Calendar
//! page draw with: relative labels, spans, month and week grids, what a day
//! shows and side-by-side lanes for overlapping events.
use crate::dates::{
    date, date_format_known, date_from_days, day_start, days, days_from_ce, format_date,
    formatted_date, from_days, is_calendar_date, local, parse_date_as, parse_time_as, parsed_date,
    parsed_time, weekday, weekday_from_monday, Date, LocalTime, Time, MAX_DAYS, MIN_DAYS, midnight, near_or_skipped,
};
use crate::text::{
    chars_of, decimal, digit, is_white, push_decimal, push_range, push_signed, push_str,
    signed_decimal, string_of, trim, trimmed,
};
use vstd::prelude::*;

verus! {

pub const DAY: i64 = 86_400;

#[derive(Clone, Copy, Debug, PartialEq, Eq, Structural)]
pub enum EventSource {
    Macos,
    Agentinc,
}

/// One event on a calendar, with Unix-second bounds.
#[derive(Clone, Debug, PartialEq, Eq)]
pub struct CalendarEvent {
    pub id: String,
    pub source: EventSource,
    pub calendar: String,
    pub color: Option<String>,
    pub title: String,
    pub location: Option<String>,
    pub notes: Option<String>,
    pub starts_at: i64,
    pub ends_at: i64,
    pub all_day: bool,
    pub revision: i64,
}

// ----- Numbers in words ---------------------------------------------------

/// Rust's `/` on integers: the quotient rounded toward zero.
pub open spec fn quot(a: int, b: int) -> int {
    if a >= 0 {
        a / b
    } else {
        -((-a) / b)
    }
}

/// "now", "in 25 min", "in 3 h", "in 2 days".
pub open spec fn spec_until(seconds: int, now: int) -> Seq<char> {
    let m = quot(seconds - now, 60);
    if m <= 0 {
        "now"@
    } else if m < 60 {
        "in "@ + decimal(m as nat) + " min"@
    } else if m < 24 * 60 {
        "in "@ + decimal(((m + 30) / 60) as nat) + " h"@
    } else {
        let days = (m + 12 * 60) / (1440 as int);
        "in "@ + decimal(days as nat) + (if days == 1 {
            " day"@
        } else {
            " days"@
        })
    }
}

/// "now", "in 25 min", "in 3 h", "in 2 days".
pub fn until(seconds: i64, now: i64) -> (r: String)
    requires
        i64::MIN <= seconds - now <= i64::MAX,
    ensures
        r@ == spec_until(seconds as int, now as int),
{
    let diff = seconds - now;
    let mut out: Vec<char> = Vec::new();
    if diff < 60 {
        push_str(&mut out, "now");
        return string_of(&out);
    }
    let m: u64 = (diff as u64) / 60;
    push_str(&mut out, "in ");
    if m < 60 {
        push_decimal(&mut out, m);
        push_str(&mut out, " min");
    } else if m < 24 * 60 {
        push_decimal(&mut out, (m + 30) / 60);
        push_str(&mut out, " h");
    } else {
        let days = (m + 12 * 60) / (24 * 60);
        push_decimal(&mut out, days);
        if days == 1 {
            push_str(&mut out, " day");
        } else {
            push_str(&mut out, " days");
        }
    }
    string_of(&out)
}

/// "just now", "2 min ago", "3 h ago", "2 days ago".
pub open spec fn spec_ago(seconds: int, now: int) -> Seq<char> {
    let minutes = (if now - seconds > 0 {
        now - seconds
    } else {
        0
    }) / 60;
    if minutes == 0 {
        "just now"@
    } else if minutes < 60 {
        decimal(minutes as nat) + " min ago"@
    } else if minutes < 24 * 60 {
        decimal((minutes / 60) as nat) + " h ago"@
    } else {
        decimal((minutes / (1440 as int)) as nat) + " days ago"@
    }
}

/// "2 min ago" and friends for sync status.
pub fn ago(seconds: i64, now: i64) -> (r: String)
    requires
        i64::MIN <= now - seconds <= i64::MAX,
    ensures
        r@ == spec_ago(seconds as int, now as int),
{
    let elapsed = now - seconds;
    let minutes: u64 = if elapsed > 0 {
        (elapsed as u64) / 60
    } else {
        0
    };
    let mut out: Vec<char> = Vec::new();
    if minutes == 0 {
        push_str(&mut out, "just now");
    } else if minutes < 60 {
        push_decimal(&mut out, minutes);
        push_str(&mut out, " min ago");
    } else if minutes < 24 * 60 {
        push_decimal(&mut out, minutes / 60);
        push_str(&mut out, " h ago");
    } else {
        push_decimal(&mut out, minutes / (24 * 60));
        push_str(&mut out, " days ago");
    }
    string_of(&out)
}

// ----- Clock times --------------------------------------------------------

/// The hour on a twelve-hour clock: 12, 1, … 11.
pub open spec fn twelve(hour: int) -> int {
    if hour % 12 == 0 {
        12
    } else {
        hour % 12
    }
}

/// "AM" before noon, "PM" after, as `%p` prints it.
pub open spec fn meridiem(hour: int) -> Seq<char> {
    if hour < 12 {
        "AM"@
    } else {
        "PM"@
    }
}

/// Two digits, as `%M` prints minutes.
pub open spec fn two_digits(n: int) -> Seq<char> {
    seq![digit((n / 10) as nat), digit((n % 10) as nat)]
}

/// "3 PM" on the hour, "3:30 PM" otherwise.
pub open spec fn spec_clock(t: LocalTime) -> Seq<char> {
    if t.minute == 0 {
        decimal(twelve(t.hour as int) as nat) + seq![' '] + meridiem(t.hour as int)
    } else {
        decimal(twelve(t.hour as int) as nat) + seq![':'] + two_digits(t.minute as int) + seq![' ']
            + meridiem(t.hour as int)
    }
}

/// The hour without its half of the day: "3" or "3:30".
pub open spec fn spec_bare(t: LocalTime) -> Seq<char> {
    if t.minute == 0 {
        decimal(twelve(t.hour as int) as nat)
    } else {
        decimal(twelve(t.hour as int) as nat) + seq![':'] + two_digits(t.minute as int)
    }
}

fn push_bare(v: &mut Vec<char>, t: LocalTime)
    requires
        t.hour < 24,
        t.minute < 60,
    ensures
        final(v)@ == old(v)@ + spec_bare(t),
{
    let h = if t.hour % 12 == 0 {
        12
    } else {
        t.hour % 12
    };
    push_decimal(v, h as u64);
    if t.minute != 0 {
        v.push(':');
        let tens: u8 = (t.minute / 10) as u8 + 48;
        let ones: u8 = (t.minute % 10) as u8 + 48;
        v.push(tens as char);
        v.push(ones as char);
        proof {
            assert(digit((t.minute / 10) as nat) == tens as char);
            assert(digit((t.minute % 10) as nat) == ones as char);
        }
    }
}

fn push_clock(v: &mut Vec<char>, t: LocalTime)
    requires
        t.hour < 24,
        t.minute < 60,
    ensures
        final(v)@ == old(v)@ + spec_clock(t),
{
    push_bare(v, t);
    v.push(' ');
    if t.hour < 12 {
        push_str(v, "AM");
    } else {
        push_str(v, "PM");
    }
}

/// A local time as the event editor shows it: "3:00 PM".
pub open spec fn spec_time_text(t: LocalTime) -> Seq<char> {
    decimal(twelve(t.hour as int) as nat) + seq![':'] + two_digits(t.minute as int) + seq![' ']
        + meridiem(t.hour as int)
}

/// "3 PM", "3:30 PM" for a local time.
pub fn clock_text(t: LocalTime) -> (r: String)
    requires
        t.hour < 24,
        t.minute < 60,
    ensures
        r@ == spec_clock(t),
{
    let mut out: Vec<char> = Vec::new();
    push_clock(&mut out, t);
    string_of(&out)
}

/// "3 PM", "3:30 PM" on the Mac's clock.
pub fn clock(seconds: i64) -> (r: String)
    ensures
        exists|t: LocalTime| t.hour < 24 && t.minute < 60 && r@ == spec_clock(t),
{
    let t = local(seconds);
    clock_text(t)
}

/// The editor's text for a local time: "3:00 PM".
pub fn time_text_of(t: LocalTime) -> (r: String)
    requires
        t.hour < 24,
        t.minute < 60,
    ensures
        r@ == spec_time_text(t),
{
    let mut out: Vec<char> = Vec::new();
    let h = if t.hour % 12 == 0 {
        12
    } else {
        t.hour % 12
    };
    push_decimal(&mut out, h as u64);
    out.push(':');
    let tens: u8 = (t.minute / 10) as u8 + 48;
    let ones: u8 = (t.minute % 10) as u8 + 48;
    out.push(tens as char);
    out.push(ones as char);
    proof {
        assert(digit((t.minute / 10) as nat) == tens as char);
        assert(digit((t.minute % 10) as nat) == ones as char);
    }
    out.push(' ');
    if t.hour < 12 {
        push_str(&mut out, "AM");
    } else {
        push_str(&mut out, "PM");
    }
    string_of(&out)
}

/// The editor's text for a moment on the Mac's clock: "3:00 PM".
pub fn time_text(seconds: i64) -> (r: String)
    ensures
        exists|t: LocalTime| t.hour < 24 && t.minute < 60 && r@ == spec_time_text(t),
{
    let t = local(seconds);
    time_text_of(t)
}

/// How an event's time reads: "All day", "All day · 3 days", "3 – 4 PM",
/// "11:30 AM – 12:15 PM", given its local start and end.
pub open spec fn spec_span(
    all_day: bool,
    starts_at: int,
    ends_at: int,
    from: LocalTime,
    to: LocalTime,
) -> Seq<char> {
    if all_day {
        let days = quot((ends_at - starts_at) + DAY / 2, DAY as int);
        if days > 1 {
            "All day · "@ + decimal(days as nat) + " days"@
        } else {
            "All day"@
        }
    } else if ends_at == starts_at {
        spec_clock(from)
    } else if meridiem(from.hour as int) == meridiem(to.hour as int) && from.date == to.date {
        spec_bare(from) + " – "@ + spec_clock(to)
    } else {
        spec_clock(from) + " – "@ + spec_clock(to)
    }
}

proof fn lemma_meridiem(a: int, b: int)
    ensures
        (meridiem(a) == meridiem(b)) == ((a < 12) == (b < 12)),
{
    reveal_strlit("AM");
    reveal_strlit("PM");
    assert("AM"@[0] != "PM"@[0]);
    if (a < 12) != (b < 12) {
        assert(meridiem(a)[0] != meridiem(b)[0]);
    }
}

/// An event's time from its local start and end.
pub fn span_text(event: &CalendarEvent, from: LocalTime, to: LocalTime) -> (r: String)
    requires
        from.hour < 24 && from.minute < 60,
        to.hour < 24 && to.minute < 60,
        i64::MIN <= event.ends_at - event.starts_at <= i64::MAX,
        i64::MIN <= (event.ends_at - event.starts_at) + DAY / 2 <= i64::MAX,
    ensures
        r@ == spec_span(event.all_day, event.starts_at as int, event.ends_at as int, from, to),
{
    let mut out: Vec<char> = Vec::new();
    if event.all_day {
        let total = (event.ends_at - event.starts_at) + DAY / 2;
        let days: i64 = if total >= 0 {
            ((total as u64) / (DAY as u64)) as i64
        } else {
            -(((-total) as u64 / (DAY as u64)) as i64)
        };
        if days > 1 {
            push_str(&mut out, "All day · ");
            push_decimal(&mut out, days as u64);
            push_str(&mut out, " days");
        } else {
            push_str(&mut out, "All day");
        }
        return string_of(&out);
    }
    if event.ends_at == event.starts_at {
        push_clock(&mut out, from);
        return string_of(&out);
    }
    if (from.hour < 12) == (to.hour < 12) && from.date == to.date {
        push_bare(&mut out, from);
    } else {
        push_clock(&mut out, from);
    }
    push_str(&mut out, " – ");
    push_clock(&mut out, to);
    proof {
        lemma_meridiem(from.hour as int, to.hour as int);
    }
    string_of(&out)
}

/// "All day", "3 – 4 PM", "11:30 AM – 12:15 PM" on the Mac's clock.
pub fn span(event: &CalendarEvent) -> (r: String)
    requires
        i64::MIN <= event.ends_at - event.starts_at <= i64::MAX,
        i64::MIN <= (event.ends_at - event.starts_at) + DAY / 2 <= i64::MAX,
    ensures
        exists|from: LocalTime, to: LocalTime|
            from.hour < 24 && from.minute < 60 && to.hour < 24 && to.minute < 60 && r@
                == spec_span(event.all_day, event.starts_at as int, event.ends_at as int, from, to),
{
    let from = local(event.starts_at);
    let to = local(event.ends_at);
    span_text(event, from, to)
}

// ----- Dates --------------------------------------------------------------

/// "Today", "Tomorrow", "Yesterday", or "Mon, Sep 28" (with the year when
/// it is not this year's).
pub open spec fn spec_day_label(d: Date, today: Date) -> Seq<char> {
    let diff = d.days() - today.days();
    if diff == 0 {
        "Today"@
    } else if diff == 1 {
        "Tomorrow"@
    } else if diff == -1 {
        "Yesterday"@
    } else if d.year == today.year {
        formatted_date(d.year, d.month, d.day, "%a, %b %-d"@)
    } else {
        formatted_date(d.year, d.month, d.day, "%a, %b %-d, %Y"@)
    }
}

/// "Today", "Tomorrow", "Yesterday", or "Mon, Sep 28".
pub fn day_label(d: Date, today: Date) -> (r: String)
    requires
        d.valid(),
        today.valid(),
    ensures
        r@ == spec_day_label(d, today),
{
    let diff = days(d) - days(today);
    if diff == 0 {
        "Today".to_owned()
    } else if diff == 1 {
        "Tomorrow".to_owned()
    } else if diff == -1 {
        "Yesterday".to_owned()
    } else if d.year == today.year {
        format_date(d, "%a, %b %-d")
    } else {
        format_date(d, "%a, %b %-d, %Y")
    }
}

/// The form's text for a date: "Oct 3, 2026".
pub fn date_text(d: Date) -> (r: String)
    requires
        d.valid(),
    ensures
        r@ == formatted_date(d.year, d.month, d.day, "%b %-d, %Y"@),
{
    format_date(d, "%b %-d, %Y")
}

/// The day `n` days after `d` (before, when `n` is negative).
pub open spec fn shifted(d: Date, n: int) -> Option<Date> {
    date_from_days(d.days() + n)
}

/// The first day of the date's month.
pub open spec fn first_of_month(d: Date) -> Date {
    if is_calendar_date(d.year, d.month, 1) {
        Date { year: d.year, month: d.month, day: 1 }
    } else {
        d
    }
}

/// A day number less its weekday is a Monday's.
proof fn lemma_monday(n: int)
    ensures
        (n - 1 - (n - 1) % 7) % 7 == 0,
{
    vstd::arithmetic::div_mod::lemma_fundamental_div_mod(n - 1, 7);
    vstd::arithmetic::div_mod::lemma_mod_multiples_basic((n - 1) / 7, 7);
    assert(7 * ((n - 1) / 7) == ((n - 1) / 7) * 7) by (nonlinear_arith);
}

/// `n` days run on by one from a Monday: the first is a Monday, and each
/// day's number is one more than the one before.
pub open spec fn monday_run(days: Seq<Date>, n: int) -> bool {
    &&& days.len() == n
    &&& forall|i: int| 0 <= i < n ==> (#[trigger] days[i]).valid() && days[i].days() == days[0].days() + i
    &&& weekday_from_monday(days[0].year, days[0].month, days[0].day) == 0
}

/// The `count` days that start `lead` days before the day numbered `start`.
fn days_from(start: i32, lead: i32, count: i32) -> (r: Vec<Date>)
    requires
        0 <= count <= 42,
        MIN_DAYS <= start - lead,
        start - lead + count - 1 <= MAX_DAYS,
    ensures
        r.len() == count,
        forall|k: int| 0 <= k < count ==> Some(#[trigger] r@[k]) == date_from_days(start - lead + k),
        forall|k: int| 0 <= k < count ==> (#[trigger] r@[k]).valid() && r@[k].days() == start - lead + k,
{
    let mut out: Vec<Date> = Vec::new();
    let mut i: i32 = 0;
    while i < count
        invariant
            0 <= i <= count <= 42,
            out.len() == i,
            MIN_DAYS <= start - lead,
            start - lead + count - 1 <= MAX_DAYS,
            forall|k: int| 0 <= k < i ==> Some(#[trigger] out@[k]) == date_from_days(start - lead + k),
            forall|k: int| 0 <= k < i ==> (#[trigger] out@[k]).valid() && out@[k].days() == start - lead + k,
        decreases count - i,
    {
        match from_days(start - lead + i) {
            Some(d) => out.push(d),
            None => {
                assert(false);
            },
        }
        i += 1;
    }
    out
}

/// Six Monday-first weeks that cover the month of `month`.
pub fn month_grid(month: Date) -> (r: Vec<Date>)
    requires
        month.valid(),
        month.month_inside(),
    ensures
        r.len() == 42,
        forall|i: int|
            0 <= i < 42 ==> Some(#[trigger] r@[i]) == shifted(
                first_of_month(month),
                i - weekday_from_monday(
                    first_of_month(month).year,
                    first_of_month(month).month,
                    first_of_month(month).day,
                ),
            ),
        monday_run(r@, 42),
        r@.contains(first_of_month(month)),
        first_of_month(month).day == 1,
{
    let _ = date(month.year, month.month, month.day);
    let first = match date(month.year, month.month, 1) {
        Some(first) => first,
        None => month,
    };
    assert(first == first_of_month(month) && first.day == 1);
    let lead = weekday(first) as i32;
    let start = days(first);
    let out = days_from(start, lead, 42);
    proof {
        lemma_monday(start as int);
        assert(out@[lead as int] == first);
    }
    out
}

/// The Monday-first week containing `d`.
pub fn week(d: Date) -> (r: Vec<Date>)
    requires
        d.valid(),
        d.week_inside(),
    ensures
        r.len() == 7,
        forall|i: int|
            0 <= i < 7 ==> Some(#[trigger] r@[i]) == shifted(
                d,
                i - weekday_from_monday(d.year, d.month, d.day),
            ),
        monday_run(r@, 7),
        r@.contains(d),
{
    let lead = weekday(d) as i32;
    let start = days(d);
    let out = days_from(start, lead, 7);
    proof {
        lemma_monday(start as int);
        assert(out@[lead as int] == d);
    }
    out
}

// ----- Reading dates and times --------------------------------------------

/// The text without its commas.
pub open spec fn without(s: Seq<char>, c: char) -> Seq<char>
    decreases s.len(),
{
    if s.len() == 0 {
        s
    } else if s.last() == c {
        without(s.drop_last(), c)
    } else {
        without(s.drop_last(), c).push(s.last())
    }
}

fn remove_char(s: &Vec<char>, c: char) -> (r: Vec<char>)
    ensures
        r@ == without(s@, c),
{
    let mut out: Vec<char> = Vec::new();
    let mut i: usize = 0;
    while i < s.len()
        invariant
            i <= s.len(),
            out@ == without(s@.take(i as int), c),
        decreases s.len() - i,
    {
        if s[i] != c {
            out.push(s[i]);
        }
        proof {
            assert(s@.take(i + 1).drop_last() == s@.take(i as int));
        }
        i += 1;
    }
    proof {
        assert(s@.take(s.len() as int) == s@);
    }
    out
}

/// The first of `formats` that reads `text` as a date.
pub open spec fn first_date(text: Seq<char>, formats: Seq<Seq<char>>) -> Option<Date>
    decreases formats.len(),
{
    if formats.len() == 0 {
        None
    } else {
        match parsed_date(text, formats[0]) {
            Some(d) => Some(d),
            None => first_date(text, formats.drop_first()),
        }
    }
}

/// The first of `formats` that reads `text` followed by a year as a date.
pub open spec fn first_date_in_year(text: Seq<char>, year: int, formats: Seq<Seq<char>>) -> Option<Date>
    decreases formats.len(),
{
    if formats.len() == 0 {
        None
    } else {
        match parsed_date(text + seq![' '] + signed_decimal(year), formats[0] + " %Y"@) {
            Some(d) => Some(d),
            None => first_date_in_year(text, year, formats.drop_first()),
        }
    }
}

/// Dates typed into the event form: `2026-09-26`, `9/26/2026`, `9/26`,
/// `Sep 26`, `Sep 26, 2026` or `September 26`, the short ones in this year.
pub open spec fn spec_parse_date(text: Seq<char>, today: Date) -> Option<Date> {
    let cleaned = without(trim(text), ',');
    match first_date(cleaned, seq!["%Y-%m-%d"@, "%m/%d/%Y"@, "%b %d %Y"@, "%B %d %Y"@]) {
        Some(d) => Some(d),
        None => first_date_in_year(cleaned, today.year as int, seq!["%m/%d"@, "%b %d"@, "%B %d"@]),
    }
}

fn try_date(text: &Vec<char>, format: &str) -> (r: Option<Date>)
    ensures
        r == parsed_date(text@, format@),
        r matches Some(d) ==> d.valid(),
{
    parse_date_as(string_of(text).as_str(), format)
}

fn try_date_in_year(text: &Vec<char>, year: i32, format: &str) -> (r: Option<Date>)
    ensures
        r == parsed_date(text@ + seq![' '] + signed_decimal(year as int), format@ + " %Y"@),
        r matches Some(d) ==> d.valid(),
{
    let mut t: Vec<char> = Vec::new();
    push_range(&mut t, text, 0, text.len());
    assert(text@.subrange(0, text.len() as int) == text@);
    t.push(' ');
    push_signed(&mut t, year as i64);
    let mut f: Vec<char> = Vec::new();
    push_str(&mut f, format);
    push_str(&mut f, " %Y");
    assert(t@ =~= text@ + seq![' '] + signed_decimal(year as int));
    assert(f@ =~= format@ + " %Y"@);
    parse_date_as(string_of(&t).as_str(), string_of(&f).as_str())
}

/// The date typed into the event form, or `None` when it is not one.
pub fn parse_date(text: &str, today: Date) -> (r: Option<Date>)
    ensures
        r == spec_parse_date(text@, today),
        r matches Some(d) ==> d.valid(),
{
    let cleaned = remove_char(&trimmed(&chars_of(text)), ',');
    let ghost full = seq!["%Y-%m-%d"@, "%m/%d/%Y"@, "%b %d %Y"@, "%B %d %Y"@];
    let ghost short = seq!["%m/%d"@, "%b %d"@, "%B %d"@];
    proof {
        reveal_with_fuel(first_date, 5);
        reveal_with_fuel(first_date_in_year, 4);
        assert(full.drop_first() == seq!["%m/%d/%Y"@, "%b %d %Y"@, "%B %d %Y"@]);
        assert(full.drop_first().drop_first() == seq!["%b %d %Y"@, "%B %d %Y"@]);
        assert(full.drop_first().drop_first().drop_first() == seq!["%B %d %Y"@]);
        assert(full.drop_first().drop_first().drop_first().drop_first().len() == 0);
        assert(short.drop_first() == seq!["%b %d"@, "%B %d"@]);
        assert(short.drop_first().drop_first() == seq!["%B %d"@]);
        assert(short.drop_first().drop_first().drop_first().len() == 0);
    }
    if let Some(d) = try_date(&cleaned, "%Y-%m-%d") {
        return Some(d);
    }
    if let Some(d) = try_date(&cleaned, "%m/%d/%Y") {
        return Some(d);
    }
    if let Some(d) = try_date(&cleaned, "%b %d %Y") {
        return Some(d);
    }
    if let Some(d) = try_date(&cleaned, "%B %d %Y") {
        return Some(d);
    }
    if let Some(d) = try_date_in_year(&cleaned, today.year, "%m/%d") {
        return Some(d);
    }
    if let Some(d) = try_date_in_year(&cleaned, today.year, "%b %d") {
        return Some(d);
    }
    try_date_in_year(&cleaned, today.year, "%B %d")
}

pub open spec fn upper_char(c: char) -> char {
    if 'a' <= c && c <= 'z' {
        ((c as u32) - 32) as char
    } else {
        c
    }
}

/// Times typed into the event form, in capitals and without spaces, with
/// ":00" added to a bare hour before AM or PM: "3 pm" reads as "3:00PM".
pub open spec fn time_form(text: Seq<char>) -> Seq<char> {
    let t = without(trim(text).map_values(|c: char| upper_char(c)), ' ');
    if !t.contains(':') && t.len() >= 2 && (t.subrange(t.len() - 2, t.len() as int) == "AM"@
        || t.subrange(t.len() - 2, t.len() as int) == "PM"@) {
        t.subrange(0, t.len() - 2) + ":00"@ + t.subrange(t.len() - 2, t.len() as int)
    } else {
        t
    }
}

/// Times typed into the event form: `15:00`, `3:00 PM`, `3pm`, `3 pm`.
pub open spec fn spec_parse_time(text: Seq<char>) -> Option<Time> {
    match parsed_time(time_form(text), "%H:%M"@) {
        Some(t) => Some(t),
        None => parsed_time(time_form(text), "%I:%M%p"@),
    }
}

fn upper_ascii_char(c: char) -> (r: char)
    ensures
        r == upper_char(c),
{
    if 'a' <= c && c <= 'z' {
        let n: u32 = (c as u32) - 32;
        let b: u8 = n as u8;
        b as char
    } else {
        c
    }
}

/// The time typed into the event form, or `None` when it is not one.
pub fn parse_time(text: &str) -> (r: Option<Time>)
    ensures
        r == spec_parse_time(text@),
        r matches Some(t) ==> t.valid(),
{
    let trimmed_text = trimmed(&chars_of(text));
    let mut upper: Vec<char> = Vec::new();
    let mut i: usize = 0;
    while i < trimmed_text.len()
        invariant
            i <= trimmed_text.len(),
            upper@ == trimmed_text@.take(i as int).map_values(|c: char| upper_char(c)),
        decreases trimmed_text.len() - i,
    {
        upper.push(upper_ascii_char(trimmed_text[i]));
        proof {
            assert(trimmed_text@.take(i + 1).map_values(|c: char| upper_char(c)) =~= trimmed_text@.take(
                i as int,
            ).map_values(|c: char| upper_char(c)).push(upper_char(trimmed_text@[i as int])));
        }
        i += 1;
    }
    proof {
        assert(trimmed_text@.take(trimmed_text.len() as int) == trimmed_text@);
    }
    let t = remove_char(&upper, ' ');
    let mut has_colon = false;
    let mut k: usize = 0;
    while k < t.len()
        invariant
            k <= t.len(),
            has_colon == exists|m: int| 0 <= m < k && t@[m] == ':',
        decreases t.len() - k,
    {
        if t[k] == ':' {
            has_colon = true;
        }
        k += 1;
    }
    proof {
        if has_colon {
            let m = choose|m: int| 0 <= m < t.len() && t@[m] == ':';
            assert(t@.contains(':'));
        } else {
            assert(!t@.contains(':'));
        }
    }
    let n = t.len();
    let ends_am_pm = n >= 2 && t[n - 1] == 'M' && (t[n - 2] == 'A' || t[n - 2] == 'P');
    proof {
        reveal_strlit("AM");
        reveal_strlit("PM");
        assert("AM"@ =~= seq!['A', 'M']);
        assert("PM"@ =~= seq!['P', 'M']);
        if n >= 2 {
            let tail = t@.subrange(n - 2, n as int);
            if t@[n - 2] == 'A' && t@[n - 1] == 'M' {
                assert(tail =~= seq!['A', 'M']);
            }
            if t@[n - 2] == 'P' && t@[n - 1] == 'M' {
                assert(tail =~= seq!['P', 'M']);
            }
            if tail == seq!['A', 'M'] || tail == seq!['P', 'M'] {
                assert(tail[0] == t@[n - 2] && tail[1] == t@[n - 1]);
            }
        }
    }
    let mut form: Vec<char> = Vec::new();
    if !has_colon && ends_am_pm {
        push_range(&mut form, &t, 0, n - 2);
        push_str(&mut form, ":00");
        push_range(&mut form, &t, n - 2, n);
    } else {
        push_range(&mut form, &t, 0, n);
        assert(t@.subrange(0, n as int) == t@);
    }
    let s = string_of(&form);
    match parse_time_as(s.as_str(), "%H:%M") {
        Some(time) => Some(time),
        None => parse_time_as(s.as_str(), "%I:%M%p"),
    }
}

// ----- Ordering -----------------------------------------------------------

/// Whether position `a` comes before position `b` when sorting stably by
/// `keys`: the smaller key first, the earlier position on a tie.
pub open spec fn precedes(keys: Seq<(i64, i64)>, a: int, b: int) -> bool {
    ||| keys[a].0 < keys[b].0
    ||| keys[a].0 == keys[b].0 && keys[a].1 < keys[b].1
    ||| keys[a].0 == keys[b].0 && keys[a].1 == keys[b].1 && a < b
}

/// `order` lists every position of `keys` once, as a stable sort by key
/// arranges them.
pub open spec fn is_stable_order(keys: Seq<(i64, i64)>, order: Seq<usize>) -> bool {
    &&& order.len() == keys.len()
    &&& forall|k: int| 0 <= k < order.len() ==> #[trigger] order[k] < keys.len()
    &&& forall|k: int, m: int|
        0 <= k < m < order.len() ==> precedes(keys, #[trigger] order[k] as int, #[trigger] order[m] as int)
}

fn precedes_exec(keys: &Vec<(i64, i64)>, a: usize, b: usize) -> (r: bool)
    requires
        a < keys.len(),
        b < keys.len(),
    ensures
        r == precedes(keys@, a as int, b as int),
{
    let (ka, kb) = (keys[a], keys[b]);
    ka.0 < kb.0 || (ka.0 == kb.0 && ka.1 < kb.1) || (ka.0 == kb.0 && ka.1 == kb.1 && a < b)
}

/// The positions of `keys` in stable sorted order.
pub fn stable_order(keys: &Vec<(i64, i64)>) -> (r: Vec<usize>)
    ensures
        is_stable_order(keys@, r@),
{
    let mut out: Vec<usize> = Vec::new();
    let mut i: usize = 0;
    while i < keys.len()
        invariant
            i <= keys.len(),
            out.len() == i,
            forall|k: int| 0 <= k < out.len() ==> #[trigger] out@[k] < i,
            forall|k: int, m: int|
                0 <= k < m < out.len() ==> precedes(keys@, #[trigger] out@[k] as int, #[trigger] out@[m] as int),
        decreases keys.len() - i,
    {
        let mut p: usize = 0;
        while p < out.len() && precedes_exec(keys, out[p], i)
            invariant
                i < keys.len(),
                p <= out.len(),
                out.len() == i,
                forall|k: int| 0 <= k < out.len() ==> #[trigger] out@[k] < i,
                forall|k: int| 0 <= k < p ==> precedes(keys@, #[trigger] out@[k] as int, i as int),
            decreases out.len() - p,
        {
            p += 1;
        }
        let ghost before = out@;
        proof {
            if p < out.len() {
                assert(!precedes(keys@, out@[p as int] as int, i as int));
                assert(precedes(keys@, i as int, out@[p as int] as int));
            }
        }
        out.insert(p, i);
        proof {
            assert(out@ == before.insert(p as int, i));
            assert forall|k: int| 0 <= k < out.len() implies #[trigger] out@[k] < i + 1 by {
                if k < p {
                    assert(out@[k] == before[k]);
                } else if k > p {
                    assert(out@[k] == before[k - 1]);
                }
            }
            assert forall|k: int, m: int|
                0 <= k < m < out.len() implies precedes(keys@, #[trigger] out@[k] as int, #[trigger] out@[m] as int) by {
                if m < p {
                    assert(out@[k] == before[k] && out@[m] == before[m]);
                } else if m == p {
                    assert(out@[k] == before[k]);
                } else if k < p {
                    assert(out@[k] == before[k] && out@[m] == before[m - 1]);
                    assert(precedes(keys@, before[k] as int, before[m - 1] as int));
                } else if k == p {
                    assert(out@[m] == before[m - 1]);
                    if m - 1 > p {
                        assert(precedes(keys@, before[p as int] as int, before[m - 1] as int));
                    }
                } else {
                    assert(out@[k] == before[k - 1] && out@[m] == before[m - 1]);
                    assert(precedes(keys@, before[k - 1] as int, before[m - 1] as int));
                }
            }
        }
        i += 1;
    }
    out
}

// ----- What a day shows ---------------------------------------------------

/// Whether an event belongs to the day `[start, end)`: it overlaps it, or it
/// is a moment inside it.
pub open spec fn on_day_overlaps(e: CalendarEvent, start: i64, end: i64) -> bool {
    e.starts_at < end && (e.ends_at > start || (e.ends_at == e.starts_at && e.starts_at >= start))
}

/// The positions of the events that belong to the day, in list order.
pub open spec fn overlapping(events: Seq<CalendarEvent>, start: i64, end: i64) -> Seq<usize>
    decreases events.len(),
{
    if events.len() == 0 {
        Seq::empty()
    } else if on_day_overlaps(events.last(), start, end) {
        overlapping(events.drop_last(), start, end).push((events.len() - 1) as usize)
    } else {
        overlapping(events.drop_last(), start, end)
    }
}

/// All-day events sort first, then by start.
pub open spec fn day_key(e: CalendarEvent) -> (i64, i64) {
    (if e.all_day {
        0
    } else {
        1
    }, e.starts_at)
}

pub open spec fn day_keys(events: Seq<CalendarEvent>, idx: Seq<usize>) -> Seq<(i64, i64)> {
    idx.map_values(|i: usize| day_key(events[i as int]))
}

/// The events of the day `[start, end)`, all-day events first, then by start.
/// `r` is the events of the day `[start, end)` in stable order: all-day
/// events first, then by start, then as listed.
pub open spec fn day_events(events: Seq<CalendarEvent>, start: i64, end: i64, r: Seq<CalendarEvent>) -> bool {
    exists|order: Seq<usize>|
        #![trigger is_stable_order(day_keys(events, overlapping(events, start, end)), order)]
        is_stable_order(day_keys(events, overlapping(events, start, end)), order) && r.len()
            == order.len() && forall|k: int|
            0 <= k < order.len() ==> #[trigger] r[k] == events[overlapping(events, start, end)[order[k] as int] as int]
}

pub fn events_between(events: &[CalendarEvent], start: i64, end: i64) -> (r: Vec<&CalendarEvent>)
    ensures
        day_events(events@, start, end, derefs(r@)),
{
    let mut idx: Vec<usize> = Vec::new();
    let mut keys: Vec<(i64, i64)> = Vec::new();
    let mut i: usize = 0;
    while i < events.len()
        invariant
            i <= events.len(),
            idx@ == overlapping(events@.take(i as int), start, end),
            keys@ == day_keys(events@, idx@),
            forall|k: int| 0 <= k < idx.len() ==> #[trigger] idx@[k] < i,
        decreases events.len() - i,
    {
        proof {
            assert(events@.take(i + 1).drop_last() == events@.take(i as int));
        }
        let e = &events[i];
        if e.starts_at < end && (e.ends_at > start || (e.ends_at == e.starts_at && e.starts_at >= start)) {
            idx.push(i);
            keys.push((if e.all_day { 0 } else { 1 }, e.starts_at));
            proof {
                assert(keys@ =~= day_keys(events@, idx@));
            }
        }
        i += 1;
    }
    proof {
        assert(events@.take(events.len() as int) == events@);
    }
    let order = stable_order(&keys);
    let mut out: Vec<&CalendarEvent> = Vec::new();
    let mut k: usize = 0;
    while k < order.len()
        invariant
            k <= order.len(),
            is_stable_order(keys@, order@),
            keys@ == day_keys(events@, idx@),
            idx@ == overlapping(events@, start, end),
            forall|m: int| 0 <= m < idx.len() ==> #[trigger] idx@[m] < events.len(),
            out.len() == k,
            forall|m: int| 0 <= m < k ==> #[trigger] out@[m] == events@[idx@[order@[m] as int] as int],
        decreases order.len() - k,
    {
        let at = order[k];
        let e = &events[idx[at]];
        out.push(e);
        k += 1;
    }
    proof {
        assert(is_stable_order(day_keys(events@, overlapping(events@, start, end)), order@));
        assert forall|m: int| 0 <= m < order.len() implies #[trigger] derefs(out@)[m]
            == events@[overlapping(events@, start, end)[order@[m] as int] as int] by {}
    }
    out
}

/// Events overlapping one local day, all-day events first, and the day's
/// span: local midnight to the next. Where midnight falls depends on the
/// machine's time zone: each end lies within a day of its UTC midnight, or
/// is 0 where the zone skips midnight. On `chrono`'s last day the span is
/// empty.
pub fn on_day(events: &[CalendarEvent], d: Date) -> (r: (Vec<&CalendarEvent>, (i64, i64)))
    requires
        d.valid(),
    ensures
        -9_000_000_000_000 <= r.1.0 <= 9_000_000_000_000,
        -9_000_000_000_000 <= r.1.1 <= 9_000_000_000_000,
        near_or_skipped(r.1.0 as int, d, midnight()),
        shifted(d, 1) matches Some(next) ==> near_or_skipped(r.1.1 as int, next, midnight()),
        shifted(d, 1) is None ==> r.1.1 == r.1.0,
        day_events(events@, r.1.0, r.1.1, derefs(r.0@)),
{
    let start = day_start(d);
    let n = days(d);
    let end = match from_days(n + 1) {
        Some(next) => day_start(next),
        None => start,
    };
    (events_between(events, start, end), (start, end))
}

// ----- Lanes --------------------------------------------------------------

/// The shortest height an event takes on the time grid, in seconds.
pub const MIN_LANE_SECONDS: i64 = 15 * 60;

/// Where the lane layout stands after placing some events: each event's
/// lane and cluster width so far, the events of the open cluster, when each
/// lane of that cluster frees up, and when the cluster ends.
pub struct LaneRun {
    pub placed: Seq<(usize, usize)>,
    pub cluster: Seq<usize>,
    pub lane_ends: Seq<i64>,
    pub cluster_end: i64,
}

/// Every event of `cluster` learns the cluster's width `lanes`.
pub open spec fn close_cluster(placed: Seq<(usize, usize)>, cluster: Seq<usize>, lanes: usize) -> Seq<(usize, usize)>
    decreases cluster.len(),
{
    if cluster.len() == 0 {
        placed
    } else {
        let before = close_cluster(placed, cluster.drop_last(), lanes);
        before.update(cluster.last() as int, (before[cluster.last() as int].0, lanes))
    }
}

/// The first lane at or after `p` that is free by `start`, or a new lane.
pub open spec fn free_lane(lane_ends: Seq<i64>, start: i64, p: int) -> int
    decreases lane_ends.len() - p,
{
    if p < 0 || p >= lane_ends.len() {
        lane_ends.len() as int
    } else if lane_ends[p] <= start {
        p
    } else {
        free_lane(lane_ends, start, p + 1)
    }
}

/// When an event stops taking room: its end, but never less than the
/// shortest height after its start.
pub open spec fn lane_end(e: CalendarEvent) -> i64 {
    if e.ends_at > e.starts_at + MIN_LANE_SECONDS {
        e.ends_at
    } else {
        (e.starts_at + MIN_LANE_SECONDS) as i64
    }
}

/// Place event `i`: a start at or after the cluster's end closes the
/// cluster; the event takes the first lane free by its start.
pub open spec fn place(run: LaneRun, i: usize, e: CalendarEvent) -> LaneRun {
    let end = lane_end(e);
    let closing = e.starts_at >= run.cluster_end && run.cluster.len() > 0;
    let placed = if closing {
        close_cluster(run.placed, run.cluster, run.lane_ends.len() as usize)
    } else {
        run.placed
    };
    let cluster = if closing {
        Seq::empty()
    } else {
        run.cluster
    };
    let lane_ends = if closing {
        Seq::empty()
    } else {
        run.lane_ends
    };
    let lane = free_lane(lane_ends, e.starts_at, 0);
    LaneRun {
        placed: placed.update(i as int, (lane as usize, placed[i as int].1)),
        cluster: cluster.push(i),
        lane_ends: if lane < lane_ends.len() {
            lane_ends.update(lane, end)
        } else {
            lane_ends.push(end)
        },
        cluster_end: if run.cluster_end > end {
            run.cluster_end
        } else {
            end
        },
    }
}

/// The layout after placing the first `k` events of `order`.
pub open spec fn run_lanes(events: Seq<CalendarEvent>, order: Seq<usize>, k: int) -> LaneRun
    decreases k,
{
    if k <= 0 {
        LaneRun {
            placed: Seq::new(events.len(), |j: int| (0usize, 1usize)),
            cluster: Seq::empty(),
            lane_ends: Seq::empty(),
            cluster_end: i64::MIN,
        }
    } else {
        let run = run_lanes(events, order, k - 1);
        place(run, order[k - 1], events[order[k - 1] as int])
    }
}

/// Earlier starts first; on a tie, longer events first.
pub open spec fn lane_keys(events: Seq<CalendarEvent>) -> Seq<(i64, i64)> {
    events.map_values(|e: CalendarEvent| (e.starts_at, (-e.ends_at) as i64))
}

/// Each event's lane and the number of lanes of its overlapping cluster,
/// for events placed in `order`.
pub open spec fn spec_lanes(events: Seq<CalendarEvent>, order: Seq<usize>) -> Seq<(usize, usize)> {
    let run = run_lanes(events, order, order.len() as int);
    close_cluster(run.placed, run.cluster, run.lane_ends.len() as usize)
}

/// The events behind a list of references.
pub open spec fn derefs(events: Seq<&CalendarEvent>) -> Seq<CalendarEvent> {
    events.map_values(|e: &CalendarEvent| *e)
}

pub open spec fn lanes_fit(events: Seq<CalendarEvent>) -> bool {
    forall|i: int|
        0 <= i < events.len() ==> #[trigger] events[i].ends_at > i64::MIN && events[i].starts_at
            <= i64::MAX - MIN_LANE_SECONDS
}

fn close_exec(placed: &mut Vec<(usize, usize)>, cluster: &Vec<usize>, lanes: usize)
    requires
        forall|k: int| 0 <= k < cluster.len() ==> #[trigger] cluster@[k] < old(placed).len(),
    ensures
        final(placed)@ == close_cluster(old(placed)@, cluster@, lanes),
{
    let ghost start = placed@;
    let mut j: usize = 0;
    while j < cluster.len()
        invariant
            j <= cluster.len(),
            placed.len() == start.len(),
            forall|k: int| 0 <= k < cluster.len() ==> #[trigger] cluster@[k] < start.len(),
            placed@ == close_cluster(start, cluster@.take(j as int), lanes),
        decreases cluster.len() - j,
    {
        let c = cluster[j];
        let lane = placed[c].0;
        placed.set(c, (lane, lanes));
        proof {
            assert(cluster@.take(j + 1).drop_last() == cluster@.take(j as int));
        }
        j += 1;
    }
    proof {
        assert(cluster@.take(cluster.len() as int) == cluster@);
    }
}

proof fn lemma_close_len(placed: Seq<(usize, usize)>, cluster: Seq<usize>, lanes: usize)
    requires
        forall|k: int| 0 <= k < cluster.len() ==> #[trigger] cluster[k] < placed.len(),
    ensures
        close_cluster(placed, cluster, lanes).len() == placed.len(),
    decreases cluster.len(),
{
    if cluster.len() > 0 {
        assert(cluster.last() == cluster[cluster.len() - 1]);
        lemma_close_len(placed, cluster.drop_last(), lanes);
    }
}

/// Side-by-side lanes for one day's timed events: each event's lane and the
/// number of lanes in its overlapping cluster.
pub fn lanes(events: &[&CalendarEvent]) -> (r: Vec<(usize, usize)>)
    requires
        lanes_fit(derefs(events@)),
    ensures
        exists|order: Seq<usize>|
            #![trigger is_stable_order(lane_keys(derefs(events@)), order)]
            is_stable_order(lane_keys(derefs(events@)), order) && r@
                == spec_lanes(derefs(events@), order),
        r.len() == events.len(),
        forall|i: int| 0 <= i < r.len() ==> (#[trigger] r@[i]).0 < r@[i].1,
{
    let ghost evs = derefs(events@);
    let n = events.len();
    let mut keys: Vec<(i64, i64)> = Vec::new();
    let mut i: usize = 0;
    while i < n
        invariant
            i <= n == events.len() == evs.len(),
            evs == derefs(events@),
            lanes_fit(evs),
            keys@ == lane_keys(evs.take(i as int)),
        decreases n - i,
    {
        assert(evs[i as int].ends_at > i64::MIN);
        keys.push((events[i].starts_at, -events[i].ends_at));
        proof {
            assert(keys@ =~= lane_keys(evs.take(i + 1)));
        }
        i += 1;
    }
    proof {
        assert(evs.take(n as int) == evs);
    }
    let order = stable_order(&keys);
    let mut placed: Vec<(usize, usize)> = Vec::new();
    let mut j: usize = 0;
    while j < n
        invariant
            j <= n,
            placed@ =~= Seq::new(j as nat, |k: int| (0usize, 1usize)),
        decreases n - j,
    {
        placed.push((0, 1));
        j += 1;
    }
    let mut cluster: Vec<usize> = Vec::new();
    let mut lane_ends: Vec<i64> = Vec::new();
    let mut cluster_end: i64 = i64::MIN;
    let mut step: usize = 0;
    proof {
        assert(placed@ =~= run_lanes(evs, order@, 0).placed);
        assert(cluster@ =~= run_lanes(evs, order@, 0).cluster);
        assert(lane_ends@ =~= run_lanes(evs, order@, 0).lane_ends);
    }
    while step < n
        invariant
            step <= n == events.len() == evs.len() == order.len(),
            evs == derefs(events@),
            lanes_fit(evs),
            is_stable_order(keys@, order@),
            keys@ == lane_keys(evs),
            placed.len() == n,
            placed@ == run_lanes(evs, order@, step as int).placed,
            cluster@ == run_lanes(evs, order@, step as int).cluster,
            lane_ends@ == run_lanes(evs, order@, step as int).lane_ends,
            cluster_end == run_lanes(evs, order@, step as int).cluster_end,
            forall|k: int| 0 <= k < cluster.len() ==> #[trigger] cluster@[k] < n,
            lane_ends.len() <= step,
        decreases n - step,
    {
        let at = order[step];
        let event = events[at];
        assert(evs[at as int].ends_at > i64::MIN);
        assert(*event == evs[at as int]);
        let end = if event.ends_at > event.starts_at + MIN_LANE_SECONDS {
            event.ends_at
        } else {
            event.starts_at + MIN_LANE_SECONDS
        };
        assert(end == lane_end(evs[at as int]));
        if event.starts_at >= cluster_end && cluster.len() > 0 {
            let count = lane_ends.len();
            proof {
                lemma_close_len(placed@, cluster@, count);
            }
            close_exec(&mut placed, &cluster, count);
            cluster.clear();
            lane_ends.clear();
        }
        let mut lane: usize = 0;
        while lane < lane_ends.len() && lane_ends[lane] > event.starts_at
            invariant
                lane <= lane_ends.len(),
                free_lane(lane_ends@, event.starts_at, 0) == free_lane(lane_ends@, event.starts_at, lane as int),
            decreases lane_ends.len() - lane,
        {
            lane += 1;
        }
        if lane < lane_ends.len() {
            lane_ends.set(lane, end);
        } else {
            lane_ends.push(end);
        }
        let width = placed[at].1;
        placed.set(at, (lane, width));
        cluster.push(at);
        if end > cluster_end {
            cluster_end = end;
        }
        proof {
            lemma_close_len(run_lanes(evs, order@, step as int).placed, run_lanes(evs, order@, step as int).cluster, run_lanes(evs, order@, step as int).lane_ends.len() as usize);
            assert(run_lanes(evs, order@, step + 1) == place(run_lanes(evs, order@, step as int), order@[step as int], evs[order@[step as int] as int]));
        }
        step += 1;
    }
    let count = lane_ends.len();
    close_exec(&mut placed, &cluster, count);
    proof {
        assert(is_stable_order(lane_keys(evs), order@));
        law_lane_within_width(evs, order@);
    }
    placed
}

proof fn lemma_close_effect(placed: Seq<(usize, usize)>, cluster: Seq<usize>, lanes: usize)
    requires
        placed.len() <= usize::MAX,
        forall|k: int| 0 <= k < cluster.len() ==> #[trigger] cluster[k] < placed.len(),
    ensures
        close_cluster(placed, cluster, lanes).len() == placed.len(),
        forall|j: int|
            0 <= j < placed.len() ==> (#[trigger] close_cluster(placed, cluster, lanes)[j]) == (if cluster.contains(
                j as usize,
            ) {
                (placed[j].0, lanes)
            } else {
                placed[j]
            }),
    decreases cluster.len(),
{
    if cluster.len() > 0 {
        let rest = cluster.drop_last();
        assert forall|k: int| 0 <= k < rest.len() implies #[trigger] rest[k] < placed.len() by {
            assert(rest[k] == cluster[k]);
        }
        lemma_close_effect(placed, rest, lanes);
        assert forall|j: int| 0 <= j < placed.len() implies (#[trigger] close_cluster(placed, cluster, lanes)[j])
            == (if cluster.contains(j as usize) {
            (placed[j].0, lanes)
        } else {
            placed[j]
        }) by {
            assert(cluster.last() == cluster[cluster.len() - 1]);
            if j == cluster.last() as int {
                assert(cluster.contains(j as usize));
            } else if cluster.contains(j as usize) {
                if j as usize != cluster.last() {
                    let k = choose|k: int| 0 <= k < cluster.len() && cluster[k] == j as usize;
                    assert(rest[k] == j as usize);
                    assert(rest.contains(j as usize));
                }
            } else {
                if rest.contains(j as usize) {
                    let k = choose|k: int| 0 <= k < rest.len() && rest[k] == j as usize;
                    assert(cluster[k] == j as usize);
                }
            }
        }
    }
}

proof fn lemma_free_lane(lane_ends: Seq<i64>, start: i64, p: int)
    requires
        0 <= p <= lane_ends.len(),
    ensures
        p <= free_lane(lane_ends, start, p) <= lane_ends.len(),
    decreases lane_ends.len() - p,
{
    if p < lane_ends.len() && lane_ends[p] > start {
        lemma_free_lane(lane_ends, start, p + 1);
    }
}

/// While placing, every event of the open cluster sits in one of its lanes,
/// and every other event sits within its recorded width.
pub open spec fn lanes_sound(run: LaneRun, n: int) -> bool {
    &&& run.placed.len() == n
    &&& n <= usize::MAX
    &&& run.lane_ends.len() <= run.cluster.len() <= n
    &&& forall|k: int| 0 <= k < run.cluster.len() ==> #[trigger] run.cluster[k] < n
    &&& forall|j: int|
        0 <= j < n ==> if run.cluster.contains(j as usize) {
            (#[trigger] run.placed[j]).0 < run.lane_ends.len()
        } else {
            run.placed[j].0 < run.placed[j].1
        }
}

proof fn lemma_run_sound(events: Seq<CalendarEvent>, order: Seq<usize>, k: int)
    requires
        is_stable_order(lane_keys(events), order),
        events.len() <= usize::MAX,
        0 <= k <= order.len(),
    ensures
        lanes_sound(run_lanes(events, order, k), events.len() as int),
        run_lanes(events, order, k).cluster.len() <= k,
    decreases k,
{
    let n = events.len() as int;
    if k > 0 {
        lemma_run_sound(events, order, k - 1);
        let run = run_lanes(events, order, k - 1);
        let i = order[k - 1];
        let e = events[i as int];
        let closing = e.starts_at >= run.cluster_end && run.cluster.len() > 0;
        lemma_close_effect(run.placed, run.cluster, run.lane_ends.len() as usize);
        let placed = if closing {
            close_cluster(run.placed, run.cluster, run.lane_ends.len() as usize)
        } else {
            run.placed
        };
        let cluster = if closing {
            Seq::<usize>::empty()
        } else {
            run.cluster
        };
        let lane_ends = if closing {
            Seq::<i64>::empty()
        } else {
            run.lane_ends
        };
        lemma_free_lane(lane_ends, e.starts_at, 0);
        let next = run_lanes(events, order, k);
        assert(next == place(run, i, e));
        assert forall|j: int| 0 <= j < n implies if next.cluster.contains(j as usize) {
            (#[trigger] next.placed[j]).0 < next.lane_ends.len()
        } else {
            next.placed[j].0 < next.placed[j].1
        } by {
            if j == i as int {
                assert(next.cluster.last() == i);
                assert(next.cluster[next.cluster.len() - 1] == i);
                assert(next.cluster.contains(j as usize));
            } else {
                assert(next.placed[j] == placed[j]);
                if next.cluster.contains(j as usize) {
                    let m = choose|m: int| 0 <= m < next.cluster.len() && next.cluster[m] == j as usize;
                    if m < cluster.len() {
                        assert(cluster[m] == j as usize);
                        assert(cluster.contains(j as usize));
                    }
                } else {
                    if cluster.contains(j as usize) {
                        let m = choose|m: int| 0 <= m < cluster.len() && cluster[m] == j as usize;
                        assert(next.cluster[m] == j as usize);
                    }
                    if closing && run.cluster.contains(j as usize) {
                        assert(placed[j] == (run.placed[j].0, run.lane_ends.len() as usize));
                        assert(run.placed[j].0 < run.lane_ends.len());
                    }
                }
            }
        }
    } else {
        let run = run_lanes(events, order, 0);
        assert forall|j: int| 0 <= j < n implies !(#[trigger] run.cluster.contains(j as usize)) by {}
    }
}

/// No event is drawn outside its cluster: each event's lane is less than the
/// number of lanes the cluster it belongs to is split into.
pub proof fn law_lane_within_width(events: Seq<CalendarEvent>, order: Seq<usize>)
    requires
        events.len() <= usize::MAX,
        is_stable_order(lane_keys(events), order),
    ensures
        spec_lanes(events, order).len() == events.len(),
        forall|i: int|
            0 <= i < events.len() ==> (#[trigger] spec_lanes(events, order)[i]).0 < spec_lanes(
                events,
                order,
            )[i].1,
{
    lemma_run_sound(events, order, order.len() as int);
    let run = run_lanes(events, order, order.len() as int);
    lemma_close_effect(run.placed, run.cluster, run.lane_ends.len() as usize);
    assert forall|i: int| 0 <= i < events.len() implies (#[trigger] spec_lanes(events, order)[i]).0
        < spec_lanes(events, order)[i].1 by {
        if run.cluster.contains(i as usize) {
            assert(run.placed[i].0 < run.lane_ends.len());
        } else {
            assert(run.placed[i].0 < run.placed[i].1);
        }
    }
}

// ----- The loaded window ------------------------------------------------------------

/// The window of events loaded at first: two months back, two hundred days on.
pub open spec fn spec_default_window(today_start: int) -> (int, int) {
    (today_start - 62 * DAY, today_start + 200 * DAY)
}

/// The window of events loaded at first, from local midnight today.
pub fn default_window(today_start: i64) -> (r: (i64, i64))
    requires
        -9_000_000_000_000 <= today_start <= 9_000_000_000_000,
    ensures
        (r.0 as int, r.1 as int) == spec_default_window(today_start as int),
{
    (today_start - 62 * DAY, today_start + 200 * DAY)
}

/// The window to load so that `[from, to)` is covered, or `None` when the
/// loaded window already covers it: a month before `from` and four months
/// after `to`, but no further than 399 days from its start unless `to`
/// itself lies further.
pub open spec fn spec_cover(window: (i64, i64), from: int, to: int) -> Option<(int, int)> {
    if from >= window.0 && to <= window.1 {
        None
    } else {
        let start = from - 31 * DAY;
        let end = if to + 120 * DAY <= start + 399 * DAY {
            to + 120 * DAY
        } else if to <= start + 399 * DAY {
            start + 399 * DAY
        } else {
            to
        };
        Some((start, end))
    }
}

/// The window to load so that `[from, to)` is covered, if the loaded one
/// does not.
pub fn cover(window: (i64, i64), from: i64, to: i64) -> (r: Option<(i64, i64)>)
    requires
        i64::MIN + 31 * DAY <= from <= i64::MAX - 368 * DAY,
        to <= i64::MAX - 120 * DAY,
    ensures
        match r {
            Some((a, b)) => spec_cover(window, from as int, to as int) == Some((a as int, b as int)),
            None => spec_cover(window, from as int, to as int) is None,
        },
        r is None <==> (window.0 <= from && to <= window.1),
        r matches Some((a, b)) ==> a <= from && to <= b,
{
    if from >= window.0 && to <= window.1 {
        return None;
    }
    let start = from - 31 * DAY;
    let later = to + 120 * DAY;
    let most = start + 399 * DAY;
    Some((start, if later <= most { later } else if to <= most { most } else { to }))
}

/// The positions of the events that have not ended at `now`, in list order.
pub open spec fn not_ended(events: Seq<CalendarEvent>, now: i64) -> Seq<usize>
    decreases events.len(),
{
    if events.len() == 0 {
        Seq::empty()
    } else if events.last().ends_at > now {
        not_ended(events.drop_last(), now).push((events.len() - 1) as usize)
    } else {
        not_ended(events.drop_last(), now)
    }
}

/// Events sort by start, and as listed on a tie.
pub open spec fn start_keys(events: Seq<CalendarEvent>, idx: Seq<usize>) -> Seq<(i64, i64)> {
    idx.map_values(|i: usize| (events[i as int].starts_at, 0i64))
}

/// `r` is the first `limit` events that have not ended at `now`, soonest
/// first (as listed when two start together).
pub open spec fn soonest(events: Seq<CalendarEvent>, now: i64, limit: int, r: Seq<CalendarEvent>) -> bool {
    exists|order: Seq<usize>|
        #![trigger is_stable_order(start_keys(events, not_ended(events, now)), order)]
        is_stable_order(start_keys(events, not_ended(events, now)), order) && r.len() == (if limit
            < order.len() {
            limit
        } else {
            order.len() as int
        }) && forall|k: int|
            0 <= k < r.len() ==> #[trigger] r[k] == events[not_ended(events, now)[order[k] as int] as int]
}

/// The next events that have not ended at `now`, soonest first, at most
/// `limit`.
pub fn upcoming(events: &Vec<CalendarEvent>, now: i64, limit: usize) -> (r: Vec<&CalendarEvent>)
    ensures
        soonest(events@, now, limit as int, derefs(r@)),
{
    let mut idx: Vec<usize> = Vec::new();
    let mut keys: Vec<(i64, i64)> = Vec::new();
    let mut i: usize = 0;
    while i < events.len()
        invariant
            i <= events.len(),
            idx@ == not_ended(events@.take(i as int), now),
            keys@ == start_keys(events@, idx@),
            forall|k: int| 0 <= k < idx.len() ==> #[trigger] idx@[k] < i,
        decreases events.len() - i,
    {
        proof {
            assert(events@.take(i + 1).drop_last() == events@.take(i as int));
        }
        if events[i].ends_at > now {
            idx.push(i);
            keys.push((events[i].starts_at, 0));
            proof {
                assert(keys@ =~= start_keys(events@, idx@));
            }
        }
        i += 1;
    }
    proof {
        assert(events@.take(events.len() as int) == events@);
    }
    let order = stable_order(&keys);
    let mut out: Vec<&CalendarEvent> = Vec::new();
    let mut k: usize = 0;
    while k < order.len() && k < limit
        invariant
            k <= order.len(),
            k <= limit,
            is_stable_order(keys@, order@),
            keys@ == start_keys(events@, idx@),
            idx@ == not_ended(events@, now),
            forall|m: int| 0 <= m < idx.len() ==> #[trigger] idx@[m] < events.len(),
            out.len() == k,
            forall|m: int| 0 <= m < k ==> #[trigger] out@[m] == events@[idx@[order@[m] as int] as int],
        decreases order.len() - k,
    {
        let at = order[k];
        out.push(&events[idx[at]]);
        k += 1;
    }
    proof {
        assert(is_stable_order(start_keys(events@, not_ended(events@, now)), order@));
        assert forall|m: int| 0 <= m < derefs(out@).len() implies #[trigger] derefs(out@)[m]
            == events@[not_ended(events@, now)[order@[m] as int] as int] by {}
    }
    out
}

/// Whether an import the daemon reports is still under way.
pub fn import_running(state: &str) -> (r: bool)
    ensures
        r == (state@ == "queued"@ || state@ == "running"@),
{
    let s = chars_of(state);
    crate::text::vec_eq(&s, &chars_of("queued")) || crate::text::vec_eq(&s, &chars_of("running"))
}

} // verus!
