//! What the Calendar page decides: where its views step to, the days and
//! span they show, the heading over them, and the event the editor's
//! fields describe.
use crate::calendar::{
    first_of_month, month_grid, parse_date, parse_time, shifted, spec_parse_date,
    spec_parse_time, week,
};
use crate::dates::{
    at, date, day_start, days, format_date, formatted_date, from_days, is_calendar_date, Date,
    Time, MAX_DAYS, MIN_DAYS, midnight, naive_seconds, near_or_skipped,
};
use crate::text::{chars_of, push_str, string_of, trim, trimmed};
use vstd::prelude::*;

verus! {

#[derive(Clone, Copy, Debug, PartialEq, Eq, Structural)]
pub enum CalendarView {
    Agenda,
    Week,
    Month,
}

/// How many days the agenda reads ahead.
pub const AGENDA_DAYS: i32 = 42;

/// New events start inside waking hours.
pub const DAY_STARTS: u32 = 9;
pub const DAY_ENDS: u32 = 20;

/// The hour a new event made today starts at: the next round hour, kept
/// inside waking hours.
pub fn next_start_hour(hour: u32) -> (r: u32)
    requires
        hour < 24,
    ensures
        r == (if hour + 1 < DAY_STARTS {
            DAY_STARTS as int
        } else if hour + 1 > DAY_ENDS {
            DAY_ENDS as int
        } else {
            hour + 1
        }),
{
    let next = hour + 1;
    if next < DAY_STARTS {
        DAY_STARTS
    } else if next > DAY_ENDS {
        DAY_ENDS
    } else {
        next
    }
}

/// The first of the month after (or before) `d`'s, if the calendar has it.
pub open spec fn month_step(d: Date, forward: bool) -> Option<Date> {
    let f = first_of_month(d);
    let (y, m) = if forward {
        if f.month == 12 {
            (f.year + 1, 1int)
        } else {
            (f.year as int, f.month + 1)
        }
    } else {
        if f.month == 1 {
            (f.year - 1, 12int)
        } else {
            (f.year as int, f.month - 1)
        }
    };
    if 1 <= f.month <= 12 && i32::MIN <= y <= i32::MAX && is_calendar_date(y as i32, m as u32, 1) {
        Some(Date { year: y as i32, month: m as u32, day: 1 })
    } else {
        None
    }
}

/// Where the previous or next button takes a view: a month, a week, or two
/// weeks of the agenda.
pub open spec fn spec_step(view: CalendarView, anchor: Date, forward: bool) -> Option<Date> {
    match view {
        CalendarView::Month => month_step(anchor, forward),
        CalendarView::Week => shifted(anchor, if forward { 7 } else { -7 }),
        CalendarView::Agenda => shifted(anchor, if forward { 14 } else { -14 }),
    }
}

/// Where the previous or next button takes a view from `anchor`; `None`
/// past the calendar's last or first day.
pub fn step(view: CalendarView, anchor: Date, forward: bool) -> (r: Option<Date>)
    requires
        anchor.valid(),
    ensures
        r == spec_step(view, anchor, forward),
{
    match view {
        CalendarView::Month => {
            let first = date(anchor.year, anchor.month, 1);
            let f = match first {
                Some(f) => f,
                None => anchor,
            };
            if f.month < 1 || f.month > 12 {
                return None;
            }
            let (y, m): (i64, u32) = if forward {
                if f.month == 12 {
                    (f.year as i64 + 1, 1)
                } else {
                    (f.year as i64, f.month + 1)
                }
            } else {
                if f.month == 1 {
                    (f.year as i64 - 1, 12)
                } else {
                    (f.year as i64, f.month - 1)
                }
            };
            if y < i32::MIN as i64 || y > i32::MAX as i64 {
                return None;
            }
            date(y as i32, m, 1)
        },
        CalendarView::Week => {
            let n = days(anchor);
            from_days(if forward { n + 7 } else { n - 7 })
        },
        CalendarView::Agenda => {
            let n = days(anchor);
            from_days(if forward { n + 14 } else { n - 14 })
        },
    }
}

/// How many days the previous or next button moves a Week or Agenda view.
pub open spec fn step_days(view: CalendarView, forward: bool) -> int {
    let n: int = if view == CalendarView::Week { 7 } else { 14 };
    if forward { n } else { -n }
}

/// In the Week and Agenda views the next and previous buttons move the
/// anchor by exactly a week (a fortnight for the agenda), forward or back:
/// the date they land on is the calendar date that many days away, and
/// there is one exactly when the calendar has that date.
pub proof fn law_steps_move_by_whole_days(view: CalendarView, d: Date, forward: bool)
    requires
        d.valid(),
        view != CalendarView::Month,
    ensures
        spec_step(view, d, forward) matches Some(p) ==> p.valid() && p.days() == d.days() + step_days(
            view,
            forward,
        ),
        (MIN_DAYS <= d.days() + step_days(view, forward) <= MAX_DAYS) <==> spec_step(view, d, forward) is Some,
{
    crate::dates::law_date_of_day_number(d, d.days() + step_days(view, forward));
}

/// The previous button undoes the next one, and the next undoes the
/// previous, in the Week and Agenda views: stepping there and back returns
/// to the same date.
pub proof fn law_steps_undo(view: CalendarView, d: Date, forward: bool)
    requires
        d.valid(),
        view != CalendarView::Month,
        spec_step(view, d, forward) is Some,
    ensures
        spec_step(view, spec_step(view, d, forward)->0, !forward) == Some(d),
{
    law_steps_move_by_whole_days(view, d, forward);
    let p = spec_step(view, d, forward)->0;
    crate::dates::law_date_of_day_number(p, p.days() + step_days(view, !forward));
    crate::dates::law_date_of_day_number(d, d.days());
    assert(p.days() + step_days(view, !forward) == d.days());
}

/// In the Month view the next button goes to the first of the following
/// month and the previous button to the first of the month before, across
/// year ends; only at `chrono`'s first and last months is there nowhere to
/// go; and going there and back lands on the first of the month started
/// from.
pub proof fn law_month_steps(d: Date, forward: bool)
    requires
        d.valid(),
    ensures
        spec_step(CalendarView::Month, d, forward) matches Some(p) ==> {
            &&& p.valid() && p.day == 1
            &&& forward && d.month == 12 ==> p.year == d.year + 1 && p.month == 1
            &&& forward && d.month < 12 ==> p.year == d.year && p.month == d.month + 1
            &&& !forward && d.month == 1 ==> p.year == d.year - 1 && p.month == 12
            &&& !forward && d.month > 1 ==> p.year == d.year && p.month == d.month - 1
            &&& spec_step(CalendarView::Month, p, !forward) == Some(
                Date { year: d.year, month: d.month, day: 1 },
            )
        },
        spec_step(CalendarView::Month, d, forward) is None <==> ((forward && d.year == crate::dates::MAX_YEAR
            && d.month == 12) || (!forward && d.year == crate::dates::MIN_YEAR && d.month == 1)),
{
}

/// The first day a view shows and the day after its last.
pub open spec fn shown_days(view: CalendarView, anchor: Date) -> (Option<Date>, Option<Date>) {
    match view {
        CalendarView::Month => {
            let f = first_of_month(anchor);
            let lead = crate::dates::weekday_from_monday(f.year, f.month, f.day);
            (shifted(f, -lead), shifted(f, 42 - lead))
        },
        CalendarView::Week => {
            let lead = crate::dates::weekday_from_monday(anchor.year, anchor.month, anchor.day);
            (shifted(anchor, -lead), shifted(anchor, 7 - lead))
        },
        CalendarView::Agenda => (Some(anchor), shifted(anchor, AGENDA_DAYS + 1)),
    }
}

/// The date `k` days from the day numbered `n`, where the calendar has it.
fn day_from(n: i32, k: i32, fallback: Date) -> (r: Date)
    requires
        MIN_DAYS <= n + k <= MAX_DAYS,
        -100 <= k <= 100,
        fallback.valid(),
    ensures
        Some(r) == crate::dates::date_from_days(n + k),
        r.valid(),
{
    match from_days(n + k) {
        Some(d) => d,
        None => fallback,
    }
}

/// The first day a view shows and the day after its last.
pub fn range_days(view: CalendarView, anchor: Date) -> (r: (Date, Date))
    requires
        anchor.valid(),
        anchor.view_inside(),
    ensures
        (Some(r.0), Some(r.1)) == shown_days(view, anchor),
        r.0.valid() && r.1.valid(),
{
    match view {
        CalendarView::Month => {
            let _ = date(anchor.year, anchor.month, anchor.day);
            let f = match date(anchor.year, anchor.month, 1) {
                Some(f) => f,
                None => anchor,
            };
            let n = days(f);
            let lead = crate::dates::weekday(f) as i32;
            (day_from(n, -lead, anchor), day_from(n, 42 - lead, anchor))
        },
        CalendarView::Week => {
            let n = days(anchor);
            let lead = crate::dates::weekday(anchor) as i32;
            (day_from(n, -lead, anchor), day_from(n, 7 - lead, anchor))
        },
        CalendarView::Agenda => {
            let n = days(anchor);
            (anchor, day_from(n, AGENDA_DAYS + 1, anchor))
        },
    }
}

/// The span a view shows, from local midnight of its first day to local
/// midnight after its last. Where midnight falls depends on the machine's
/// time zone: each end lies within a day of its UTC midnight, or is 0
/// where the zone skips midnight.
pub fn range(view: CalendarView, anchor: Date) -> (r: (i64, i64))
    requires
        anchor.valid(),
        anchor.view_inside(),
    ensures
        -9_000_000_000_000 <= r.0 <= 9_000_000_000_000,
        -9_000_000_000_000 <= r.1 <= 9_000_000_000_000,
        shown_days(view, anchor).0 matches Some(first) && near_or_skipped(r.0 as int, first, midnight()),
        shown_days(view, anchor).1 matches Some(after) && near_or_skipped(r.1 as int, after, midnight()),
{
    let (first, after) = range_days(view, anchor);
    (day_start(first), day_start(after))
}

/// The day `k` days from `d` (or `d`, past the calendar's ends).
pub open spec fn day_at(d: Date, k: int) -> Date {
    match shifted(d, k) {
        Some(x) => x,
        None => d,
    }
}

/// A date in one of the page's layouts.
pub open spec fn shown_as(d: Date, format: Seq<char>) -> Seq<char> {
    formatted_date(d.year, d.month, d.day, format)
}

/// The heading over a view: the month, or the span of days it shows.
pub open spec fn spec_period(view: CalendarView, anchor: Date) -> Seq<char> {
    match view {
        CalendarView::Month => shown_as(anchor, "%B %Y"@),
        CalendarView::Week => {
            let lead = crate::dates::weekday_from_monday(anchor.year, anchor.month, anchor.day);
            let first = day_at(anchor, -lead);
            let last = day_at(anchor, 6 - lead);
            if first.month == last.month {
                shown_as(first, "%b %-d"@) + " – "@ + shown_as(last, "%-d, %Y"@)
            } else {
                shown_as(first, "%b %-d"@) + " – "@ + shown_as(last, "%b %-d, %Y"@)
            }
        },
        CalendarView::Agenda => shown_as(anchor, "%b %-d"@) + " – "@ + shown_as(
            day_at(anchor, AGENDA_DAYS as int),
            "%b %-d, %Y"@,
        ),
    }
}

/// Append a date in one of the page's layouts.
fn push_date(v: &mut Vec<char>, d: Date, format: &str)
    requires
        d.valid(),
        crate::dates::date_format_known(format@),
    ensures
        final(v)@ == old(v)@ + shown_as(d, format@),
{
    let text = format_date(d, format);
    push_str(v, text.as_str());
}

/// The heading over a view: "September 2026", or the span of days shown,
/// such as "Sep 21 – 27, 2026".
pub fn period(view: CalendarView, anchor: Date) -> (r: String)
    requires
        anchor.valid(),
        view == CalendarView::Week ==> anchor.week_inside(),
        view == CalendarView::Agenda ==> anchor.view_inside(),
    ensures
        r@ == spec_period(view, anchor),
{
    let mut v: Vec<char> = Vec::new();
    proof {
        reveal_strlit("%B %Y");
        reveal_strlit("%b %-d");
        reveal_strlit("%-d, %Y");
        reveal_strlit("%b %-d, %Y");
    }
    match view {
        CalendarView::Month => push_date(&mut v, anchor, "%B %Y"),
        CalendarView::Week => {
            let n = days(anchor);
            let lead = crate::dates::weekday(anchor) as i32;
            let first = day_from(n, -lead, anchor);
            let last = day_from(n, 6 - lead, anchor);
            push_date(&mut v, first, "%b %-d");
            push_str(&mut v, " – ");
            if first.month == last.month {
                push_date(&mut v, last, "%-d, %Y");
            } else {
                push_date(&mut v, last, "%b %-d, %Y");
            }
        },
        CalendarView::Agenda => {
            let n = days(anchor);
            let last = day_from(n, AGENDA_DAYS, anchor);
            push_date(&mut v, anchor, "%b %-d");
            push_str(&mut v, " – ");
            push_date(&mut v, last, "%b %-d, %Y");
        },
    }
    string_of(&v)
}

// ----- The event editor ---------------------------------------------------------

/// The editor's fields as typed.
pub struct EventForm {
    pub title: String,
    pub date: String,
    pub start: String,
    pub end: String,
    pub all_day: bool,
    pub location: String,
    pub notes: String,
}

/// What the fields say before the clock places them: the title, the day,
/// the start and end times unless the event lasts all day, and the
/// optional place and notes.
pub struct FormReading {
    pub title: String,
    pub date: Date,
    pub times: Option<(Time, Time)>,
    pub location: Option<String>,
    pub notes: Option<String>,
}

/// A valid event read from the editor's fields.
pub struct Draft {
    pub title: String,
    pub starts_at: i64,
    pub ends_at: i64,
    pub all_day: bool,
    pub location: Option<String>,
    pub notes: Option<String>,
}

/// Why the form cannot be saved, checked in the order the fields read, or
/// nothing when every field reads.
pub open spec fn form_error(form: EventForm, today: Date) -> Option<Seq<char>> {
    if trim(form.title@).len() == 0 {
        Some("Give the event a title."@)
    } else if spec_parse_date(trim(form.date@), today) is None {
        Some("Use a date such as Sep 26 or 2026-09-26."@)
    } else if !form.all_day && spec_parse_time(trim(form.start@)) is None {
        Some("Use a start time such as 3:00 PM."@)
    } else if !form.all_day && spec_parse_time(trim(form.end@)) is None {
        Some("Use an end time such as 4:00 PM."@)
    } else {
        None
    }
}

/// A trimmed field, or nothing when it is blank.
pub open spec fn optional(text: Seq<char>) -> Option<Seq<char>> {
    if trim(text).len() == 0 {
        None
    } else {
        Some(trim(text))
    }
}

/// An optional text as plain characters.
pub open spec fn opt_chars(t: Option<String>) -> Option<Seq<char>> {
    match t {
        Some(s) => Some(s@),
        None => None,
    }
}

/// A field's text, trimmed.
fn field_text(text: &String) -> (r: String)
    ensures
        r@ == trim(text@),
{
    string_of(&trimmed(&chars_of(text.as_str())))
}

/// A field's text trimmed, or nothing when it is blank.
fn optional_text(text: &String) -> (r: Option<String>)
    ensures
        opt_chars(r) == optional(text@),
{
    let t = trimmed(&chars_of(text.as_str()));
    if t.len() == 0 {
        None
    } else {
        Some(string_of(&t))
    }
}

/// Read the editor's fields: the first field that does not read says why.
pub fn read_form(form: &EventForm, today: Date) -> (r: Result<FormReading, String>)
    ensures
        match r {
            Err(m) => form_error(*form, today) == Some(m@),
            Ok(f) => {
                &&& form_error(*form, today) is None
                &&& f.title@ == trim(form.title@)
                &&& Some(f.date) == spec_parse_date(trim(form.date@), today)
                &&& f.date.valid()
                &&& f.times matches Some((start, end)) ==> start.valid() && end.valid()
                &&& form.all_day ==> f.times is None
                &&& !form.all_day ==> (f.times matches Some((start, end)) && Some(start)
                    == spec_parse_time(trim(form.start@)) && Some(end) == spec_parse_time(
                    trim(form.end@),
                ))
                &&& opt_chars(f.location) == optional(form.location@)
                &&& opt_chars(f.notes) == optional(form.notes@)
            },
        },
{
    let title = field_text(&form.title);
    if title.as_str().as_bytes().len() == 0 {
        proof {
            vstd::utf8::encode_utf8_valid_utf8(title@);
            assert(title@.len() == 0) by {
                if title@.len() > 0 {
                    crate::text::lemma_byte_len_bound(title@, 1);
                    crate::text::lemma_byte_len_step(title@, 0);
                    assert(title@.take(0) =~= Seq::<char>::empty());
                }
            }
        }
        return Err(String::from_str("Give the event a title."));
    }
    proof {
        if title@.len() == 0 {
            assert(title@ =~= Seq::<char>::empty());
        }
    }
    let day = match parse_date(field_text(&form.date).as_str(), today) {
        Some(d) => d,
        None => return Err(String::from_str("Use a date such as Sep 26 or 2026-09-26.")),
    };
    let times = if form.all_day {
        None
    } else {
        let start = match parse_time(field_text(&form.start).as_str()) {
            Some(t) => t,
            None => return Err(String::from_str("Use a start time such as 3:00 PM.")),
        };
        let end = match parse_time(field_text(&form.end).as_str()) {
            Some(t) => t,
            None => return Err(String::from_str("Use an end time such as 4:00 PM.")),
        };
        Some((start, end))
    };
    Ok(
        FormReading {
            title,
            date: day,
            times,
            location: optional_text(&form.location),
            notes: optional_text(&form.notes),
        },
    )
}

/// Start and end on the clock, or why not: an end before the start runs
/// past midnight.
pub fn placed(start: Option<i64>, end: Option<i64>) -> (r: Result<(i64, i64), String>)
    requires
        start matches Some(s) ==> -9_000_000_000_000 <= s <= 9_000_000_000_000,
        end matches Some(e) ==> -9_000_000_000_000 <= e <= 9_000_000_000_000,
    ensures
        match (start, end) {
            (Some(s), Some(e)) => r == Ok::<(i64, i64), String>(
                (s, if e <= s { (e + 86_400) as i64 } else { e }),
            ),
            _ => (r matches Err(m) && m@ == "That time does not exist on this date."@),
        },
{
    match (start, end) {
        (Some(s), Some(e)) => Ok((s, if e <= s { e + 86_400 } else { e })),
        _ => Err(String::from_str("That time does not exist on this date.")),
    }
}

/// A moment within a day of the UTC reading `base`.
pub open spec fn within_day(s: int, base: int) -> bool {
    base - 86_400 < s < base + 86_400
}

/// Where a draft falls, as far as every time zone agrees: an all-day event
/// from local midnight of its day to the next (each within a day of UTC
/// midnight, or 0 where the zone skips midnight); a timed one from its start
/// on the clock to its end, a day later when the end is not after the start
/// (each reading within a day of the same reading in UTC).
pub open spec fn placed_on(form: EventForm, today: Date, d: Draft) -> bool {
    spec_parse_date(trim(form.date@), today) matches Some(day) && if form.all_day {
        &&& near_or_skipped(d.starts_at as int, day, midnight())
        &&& shifted(day, 1) matches Some(next) && near_or_skipped(d.ends_at as int, next, midnight())
    } else {
        &&& spec_parse_time(trim(form.start@)) matches Some(start) && within_day(
            d.starts_at as int,
            naive_seconds(day, start),
        )
        &&& spec_parse_time(trim(form.end@)) matches Some(end) && exists|e: int|
            #![trigger within_day(e, naive_seconds(day, end))]
            within_day(e, naive_seconds(day, end)) && d.ends_at == (if e <= d.starts_at {
                e + 86_400
            } else {
                e
            })
    }
}

/// An all-day form whose day is not the calendar's last: no time zone can
/// stop it from being saved.
pub open spec fn all_day_fits(form: EventForm, today: Date) -> bool {
    &&& form.all_day
    &&& spec_parse_date(trim(form.date@), today) matches Some(day) && shifted(day, 1) is Some
}

/// A draft says what the fields say: their title, whether it lasts all
/// day, the place and notes, and where it falls.
pub open spec fn drafted(form: EventForm, today: Date, d: Draft) -> bool {
    &&& d.title@ == trim(form.title@)
    &&& d.all_day == form.all_day
    &&& opt_chars(d.location) == optional(form.location@)
    &&& opt_chars(d.notes) == optional(form.notes@)
    &&& placed_on(form, today, d)
}

/// The event the editor's fields describe, or why it cannot be saved. An
/// all-day event runs from local midnight to the next; a timed one from its
/// start to its end on the clock. Where those fall depends on the machine's
/// time zone, so what holds in every zone is stated.
pub fn draft(form: &EventForm, today: Date) -> (r: Result<Draft, String>)
    ensures
        form_error(*form, today) matches Some(m) ==> (r matches Err(x) && x@ == m),
        form_error(*form, today) is None ==> match r {
            Ok(d) => drafted(*form, today, d),
            Err(m) => m@ == "That time does not exist on this date."@,
        },
        form_error(*form, today) is None && all_day_fits(*form, today) ==> r is Ok,
{
    let reading = match read_form(form, today) {
        Ok(f) => f,
        Err(m) => return Err(m),
    };
    let ghost mut raw_end: int = 0;
    let (starts_at, ends_at) = match reading.times {
        None => {
            let n = days(reading.date);
            match from_days(n + 1) {
                Some(next) => (day_start(reading.date), day_start(next)),
                None => return Err(String::from_str("That time does not exist on this date.")),
            }
        },
        Some((start, end)) => {
            let s = at(reading.date, start);
            let e = at(reading.date, end);
            match placed(s, e) {
                Ok(span) => {
                    proof {
                        raw_end = e->0 as int;
                    }
                    span
                },
                Err(m) => return Err(m),
            }
        },
    };
    let d = Draft {
        title: reading.title,
        starts_at,
        ends_at,
        all_day: form.all_day,
        location: reading.location,
        notes: reading.notes,
    };
    proof {
        if !form.all_day {
            let day = reading.date;
            let end = spec_parse_time(trim(form.end@))->0;
            assert(within_day(raw_end, naive_seconds(day, end)));
        }
        assert(placed_on(*form, today, d));
    }
    Ok(d)
}

// ----- Saving ------------------------------------------------------------------

/// What the editor is open on.
pub enum Editing {
    /// A new event.
    New,
    /// An AgentInc event at this revision.
    Own { id: String, revision: i64 },
    /// An event mirrored from the Mac, which is read only.
    Mirror(String),
}

/// A change to AgentInc's events.
pub enum CalendarCommand {
    Create {
        title: String,
        starts_at: i64,
        ends_at: i64,
        all_day: bool,
        location: Option<String>,
        notes: Option<String>,
    },
    Update {
        id: String,
        revision: i64,
        title: String,
        starts_at: i64,
        ends_at: i64,
        all_day: bool,
        location: Option<String>,
        notes: Option<String>,
    },
    Delete { id: String, revision: i64 },
}

/// What pressing Save does.
pub enum SaveStep {
    /// A mirrored event cannot change: the editor just closes.
    Close,
    /// The fields do not describe an event; show why.
    Error(String),
    /// Send this change.
    Run(CalendarCommand),
}

/// The command carries the draft's fields.
pub open spec fn carries(
    title: String,
    starts_at: i64,
    ends_at: i64,
    all_day: bool,
    location: Option<String>,
    notes: Option<String>,
    d: Draft,
) -> bool {
    &&& title@ == d.title@
    &&& starts_at == d.starts_at
    &&& ends_at == d.ends_at
    &&& all_day == d.all_day
    &&& opt_chars(location) == opt_chars(d.location)
    &&& opt_chars(notes) == opt_chars(d.notes)
}

/// The change a draft makes to what the editor is open on: a new event is
/// created, an AgentInc event updated at its revision.
pub open spec fn command_of(editing: Editing, d: Draft, c: CalendarCommand) -> bool {
    match (editing, c) {
        (Editing::Own { id, revision }, CalendarCommand::Update {
            id: i,
            revision: v,
            title,
            starts_at,
            ends_at,
            all_day,
            location,
            notes,
        }) => i@ == id@ && v == revision && carries(title, starts_at, ends_at, all_day, location, notes, d),
        (Editing::New, CalendarCommand::Create { title, starts_at, ends_at, all_day, location, notes }) => carries(
            title,
            starts_at,
            ends_at,
            all_day,
            location,
            notes,
            d,
        ),
        _ => false,
    }
}

fn copy_opt(t: &Option<String>) -> (r: Option<String>)
    ensures
        opt_chars(r) == opt_chars(*t),
{
    match t {
        Some(s) => Some(s.clone()),
        None => None,
    }
}

/// The change a valid draft makes.
fn command_for(editing: &Editing, d: &Draft) -> (r: CalendarCommand)
    requires
        !(*editing is Mirror),
    ensures
        command_of(*editing, *d, r),
{
    match editing {
        Editing::Own { id, revision } => CalendarCommand::Update {
            id: id.clone(),
            revision: *revision,
            title: d.title.clone(),
            starts_at: d.starts_at,
            ends_at: d.ends_at,
            all_day: d.all_day,
            location: copy_opt(&d.location),
            notes: copy_opt(&d.notes),
        },
        _ => CalendarCommand::Create {
            title: d.title.clone(),
            starts_at: d.starts_at,
            ends_at: d.ends_at,
            all_day: d.all_day,
            location: copy_opt(&d.location),
            notes: copy_opt(&d.notes),
        },
    }
}

/// Save: close a mirrored event, else send the change the fields describe
/// or say why they cannot be saved.
pub fn save(editing: &Editing, form: &EventForm, today: Date) -> (r: SaveStep)
    ensures
        *editing is Mirror ==> r is Close,
        !(*editing is Mirror) ==> (form_error(*form, today) matches Some(m) ==> (r matches SaveStep::Error(
            x,
        ) && x@ == m)),
        !(*editing is Mirror) ==> match r {
            SaveStep::Run(c) => form_error(*form, today) is None && exists|d: Draft|
                #![trigger command_of(*editing, d, c)]
                command_of(*editing, d, c) && drafted(*form, today, d),
            SaveStep::Error(m) => match form_error(*form, today) {
                Some(x) => m@ == x,
                None => m@ == "That time does not exist on this date."@,
            },
            SaveStep::Close => false,
        },
        !(*editing is Mirror) && form_error(*form, today) is None && all_day_fits(*form, today)
            ==> r is Run,
{
    if let Editing::Mirror(_) = editing {
        return SaveStep::Close;
    }
    match draft(form, today) {
        Ok(d) => {
            let c = command_for(editing, &d);
            SaveStep::Run(c)
        },
        Err(m) => SaveStep::Error(m),
    }
}

/// Delete the AgentInc event the editor is open on, at its revision.
pub fn delete_command(editing: &Editing) -> (r: Option<CalendarCommand>)
    ensures
        match (*editing, r) {
            (Editing::Own { id, revision }, Some(CalendarCommand::Delete { id: i, revision: v })) => i@
                == id@ && v == revision,
            (Editing::Own { .. }, _) => false,
            (_, r) => r is None,
        },
{
    match editing {
        Editing::Own { id, revision } => Some(CalendarCommand::Delete { id: id.clone(), revision: *revision }),
        _ => None,
    }
}

/// The event editor between frames: what it is open on, whether a change
/// is with the daemon, and why the last one could not be made.
pub struct EventEditor {
    pub editing: Option<Editing>,
    pub pending: bool,
    pub form_error: Option<String>,
}

impl EventEditor {
    /// An editor open on nothing.
    pub fn new() -> (r: EventEditor)
        ensures
            r.editing is None && !r.pending && r.form_error is None,
    {
        EventEditor { editing: None, pending: false, form_error: None }
    }

    /// Open the editor on an event, or on a new one, with fresh fields.
    pub fn open(&mut self, editing: Editing)
        ensures
            final(self).editing == Some(editing),
            !final(self).pending && final(self).form_error is None,
    {
        self.editing = Some(editing);
        self.pending = false;
        self.form_error = None;
    }

    /// Close the editor.
    pub fn close(&mut self)
        ensures
            final(self).editing is None,
            final(self).pending == old(self).pending,
            final(self).form_error == old(self).form_error,
    {
        self.editing = None;
    }

    /// Press Save: a mirrored event closes the editor; fields that do not
    /// read say why; otherwise the change goes to the daemon.
    pub fn save(&mut self, form: &EventForm, today: Date) -> (r: Option<CalendarCommand>)
        ensures
            match old(self).editing {
                None => r is None && final(self).editing is None && final(self).pending == old(self).pending && final(self).form_error == old(self).form_error,
                Some(e) => if e is Mirror {
                    r is None && final(self).editing is None
                } else {
                    &&& final(self).editing == old(self).editing
                    &&& match form_error(*form, today) {
                        Some(m) => r is None && has_error(final(self).form_error, m)
                            && final(self).pending == old(self).pending,
                        None => match r {
                            None => has_error(
                                final(self).form_error,
                                "That time does not exist on this date."@,
                            ) && final(self).pending == old(self).pending,
                            Some(c) => command_of(e, draft_of(c), c) && drafted(*form, today, draft_of(c))
                                && final(self).pending && final(self).form_error is None,
                        },
                    }
                    &&& form_error(*form, today) is None && all_day_fits(*form, today) ==> r is Some
                },
            },
    {
        let editing = match &self.editing {
            Some(e) => e,
            None => {
                return None;
            },
        };
        match save(editing, form, today) {
            SaveStep::Close => {
                self.editing = None;
                None
            },
            SaveStep::Error(m) => {
                self.form_error = Some(m);
                None
            },
            SaveStep::Run(c) => {
                proof {
                    let d = choose|d: Draft|
                        #![trigger command_of(*editing, d, c)]
                        command_of(*editing, d, c) && drafted(*form, today, d);
                    lemma_draft_of(*editing, d, c);
                    assert(placed_on(*form, today, draft_of(c)));
                }
                self.pending = true;
                self.form_error = None;
                Some(c)
            },
        }
    }

    /// Press Delete: an AgentInc event's deletion goes to the daemon.
    pub fn delete(&mut self) -> (r: Option<CalendarCommand>)
        ensures
            match old(self).editing {
                Some(Editing::Own { id, revision }) => {
                    &&& r matches Some(CalendarCommand::Delete { id: i, revision: v })
                    &&& i@ == id@ && v == revision
                    &&& final(self).pending && final(self).form_error is None
                },
                _ => r is None && final(self).pending == old(self).pending && final(self).form_error
                    == old(self).form_error,
            },
            final(self).editing == old(self).editing,
    {
        let c = match &self.editing {
            Some(e) => delete_command(e),
            None => None,
        };
        if c.is_some() {
            self.pending = true;
            self.form_error = None;
        }
        c
    }

    /// The daemon answered: the editor closes on success (the app then
    /// closes its overlay), or shows why not. Says whether it closed.
    pub fn settled(&mut self, result: Result<(), String>) -> (r: bool)
        ensures
            !final(self).pending,
            r == result is Ok,
            match result {
                Ok(()) => final(self).editing is None && final(self).form_error == old(self).form_error,
                Err(e) => final(self).editing == old(self).editing && has_error(final(self).form_error, e@),
            },
    {
        self.pending = false;
        match result {
            Ok(()) => {
                self.editing = None;
                true
            },
            Err(e) => {
                self.form_error = Some(e);
                false
            },
        }
    }
}

/// Whether an optional message is there and reads `m`.
pub open spec fn has_error(o: Option<String>, m: Seq<char>) -> bool {
    o matches Some(x) && x@ == m
}

/// The draft a command carries.
pub open spec fn draft_of(c: CalendarCommand) -> Draft {
    match c {
        CalendarCommand::Create { title, starts_at, ends_at, all_day, location, notes } => Draft {
            title,
            starts_at,
            ends_at,
            all_day,
            location,
            notes,
        },
        CalendarCommand::Update { title, starts_at, ends_at, all_day, location, notes, .. } => Draft {
            title,
            starts_at,
            ends_at,
            all_day,
            location,
            notes,
        },
        CalendarCommand::Delete { .. } => Draft {
            title: arbitrary(),
            starts_at: 0,
            ends_at: 0,
            all_day: false,
            location: None,
            notes: None,
        },
    }
}

proof fn lemma_draft_of(e: Editing, d: Draft, c: CalendarCommand)
    requires
        command_of(e, d, c),
    ensures
        command_of(e, draft_of(c), c),
{
}

// ----- Event colours -------------------------------------------------------------

/// A hexadecimal digit's value.
pub open spec fn hex_value(c: char) -> int {
    if '0' <= c <= '9' {
        c as int - '0' as int
    } else if 'a' <= c <= 'f' {
        c as int - 'a' as int + 10
    } else {
        c as int - 'A' as int + 10
    }
}

/// A hexadecimal digit.
pub open spec fn is_hex(c: char) -> bool {
    ('0' <= c <= '9') || ('a' <= c <= 'f') || ('A' <= c <= 'F')
}

/// The number hexadecimal digits spell.
pub open spec fn hex_number(d: Seq<char>) -> int
    decreases d.len(),
{
    if d.len() == 0 {
        0
    } else {
        hex_number(d.drop_last()) * 16 + hex_value(d.last())
    }
}

/// The text after every leading `#`.
pub open spec fn after_hashes(s: Seq<char>) -> Seq<char>
    decreases s.len(),
{
    if s.len() > 0 && s[0] == '#' {
        after_hashes(s.drop_first())
    } else {
        s
    }
}

/// The text after an optional leading `+`.
pub open spec fn unsigned_digits(s: Seq<char>) -> Seq<char> {
    if s.len() > 0 && s[0] == '+' {
        s.drop_first()
    } else {
        s
    }
}

/// Every character is a hexadecimal digit.
pub open spec fn all_hex(d: Seq<char>) -> bool {
    forall|k: int| 0 <= k < d.len() ==> is_hex(#[trigger] d[k])
}

/// A colour as `u32::from_str_radix` reads it in base 16, after its leading
/// `#`s: an optional `+`, then one or more hexadecimal digits that fit.
pub open spec fn spec_color(s: Seq<char>) -> Option<int> {
    let d = unsigned_digits(after_hashes(s));
    if d.len() == 0 || !all_hex(d) || hex_number(d) > u32::MAX {
        None
    } else {
        Some(hex_number(d))
    }
}

proof fn lemma_hex_grows(d: Seq<char>)
    requires
        d.len() > 0,
        all_hex(d),
    ensures
        hex_number(d) >= hex_number(d.drop_last()) >= 0,
    decreases d.len(),
{
    if d.len() > 1 {
        assert(all_hex(d.drop_last())) by {
            assert forall|k: int| 0 <= k < d.drop_last().len() implies is_hex(#[trigger] d.drop_last()[k]) by {
                assert(d.drop_last()[k] == d[k]);
            }
        }
        lemma_hex_grows(d.drop_last());
    }
    assert(is_hex(d[d.len() - 1]));
}

fn hex_digit_value(c: char) -> (r: u64)
    requires
        is_hex(c),
    ensures
        r as int == hex_value(c),
        r < 16,
{
    if '0' <= c && c <= '9' {
        (c as u32 - '0' as u32) as u64
    } else if 'a' <= c && c <= 'f' {
        (c as u32 - 'a' as u32 + 10) as u64
    } else {
        (c as u32 - 'A' as u32 + 10) as u64
    }
}

/// A colour such as `#3366FF`, read as `u32::from_str_radix` reads it
/// after its leading `#`s.
pub fn parse_color(text: &str) -> (r: Option<u32>)
    ensures
        match r {
            Some(v) => spec_color(text@) == Some(v as int),
            None => spec_color(text@) is None,
        },
{
    let c = chars_of(text);
    let mut start: usize = 0;
    proof {
        assert(c@.skip(0) =~= c@);
    }
    while start < c.len() && c[start] == '#'
        invariant
            start <= c.len(),
            c@ == text@,
            after_hashes(text@) == after_hashes(c@.skip(start as int)),
        decreases c.len() - start,
    {
        proof {
            assert(c@.skip(start as int).drop_first() =~= c@.skip(start + 1));
        }
        start += 1;
    }
    proof {
        assert(after_hashes(c@.skip(start as int)) == c@.skip(start as int));
    }
    if start < c.len() && c[start] == '+' {
        start += 1;
    }
    let ghost d = unsigned_digits(after_hashes(text@));
    proof {
        assert(d =~= c@.skip(start as int));
    }
    if start == c.len() {
        return None;
    }
    let mut value: u64 = 0;
    let mut i: usize = start;
    while i < c.len()
        invariant
            start <= i <= c.len(),
            c@ == text@,
            d == c@.skip(start as int),
            d == unsigned_digits(after_hashes(text@)),
            all_hex(d.take(i - start)),
            value as int == hex_number(d.take(i - start)),
            value <= u32::MAX,
        decreases c.len() - i,
    {
        let ch = c[i];
        proof {
            assert(d[i - start] == ch);
        }
        if !(('0' <= ch && ch <= '9') || ('a' <= ch && ch <= 'f') || ('A' <= ch && ch <= 'F')) {
            proof {
                assert(!is_hex(d[i - start]));
                assert(!all_hex(d));
            }
            return None;
        }
        let ghost next = d.take(i - start + 1);
        proof {
            assert(next.drop_last() =~= d.take(i - start));
            assert(next.last() == ch);
            assert(all_hex(next)) by {
                assert forall|k: int| 0 <= k < next.len() implies is_hex(#[trigger] next[k]) by {
                    if k < next.len() - 1 {
                        assert(next[k] == d.take(i - start)[k]);
                    }
                }
            }
        }
        let v = value * 16 + hex_digit_value(ch);
        if v > 0xffff_ffff {
            proof {
                assert(hex_number(next) == v);
                lemma_hex_prefix_grows(d, i - start + 1, d.len() as int);
                assert(d.take(d.len() as int) =~= d);
            }
            return None;
        }
        value = v;
        i += 1;
    }
    proof {
        assert(d.take(i - start) =~= d);
    }
    Some(value as u32)
}

proof fn lemma_hex_prefix_grows(d: Seq<char>, a: int, b: int)
    requires
        0 < a <= b <= d.len(),
        all_hex(d.take(a)),
    ensures
        all_hex(d.take(b)) ==> hex_number(d.take(b)) >= hex_number(d.take(a)),
    decreases b - a,
{
    if b > a && all_hex(d.take(b)) {
        assert(d.take(b).drop_last() =~= d.take(b - 1));
        assert(all_hex(d.take(b - 1))) by {
            assert forall|k: int| 0 <= k < b - 1 implies is_hex(#[trigger] d.take(b - 1)[k]) by {
                assert(d.take(b - 1)[k] == d.take(b)[k]);
            }
        }
        lemma_hex_prefix_grows(d, a, b - 1);
        lemma_hex_grows(d.take(b));
    }
}

/// How an event is tinted: AgentInc's own colour for its events, the
/// calendar's colour (blended toward neutral when drawn) for mirrored
/// ones that have a readable colour, neutral otherwise.
#[derive(Clone, Copy, Debug, PartialEq, Eq, Structural)]
pub enum Tint {
    Primary,
    Blend(u32),
    Neutral,
}

/// How an event is tinted.
pub fn event_tint(source: crate::calendar::EventSource, color: &Option<String>) -> (r: Tint)
    ensures
        r == (if source == crate::calendar::EventSource::Agentinc {
            Tint::Primary
        } else {
            match color {
                Some(c) => match spec_color(c@) {
                    Some(v) => Tint::Blend(v as u32),
                    None => Tint::Neutral,
                },
                None => Tint::Neutral,
            }
        }),
{
    if source == crate::calendar::EventSource::Agentinc {
        return Tint::Primary;
    }
    match color {
        Some(c) => match parse_color(c.as_str()) {
            Some(v) => Tint::Blend(v),
            None => Tint::Neutral,
        },
        None => Tint::Neutral,
    }
}

// ----- Laying out the views --------------------------------------------------------

/// The first hour the week view draws.
pub const FIRST_HOUR: i64 = 6;

/// The hour the week view's grid ends at.
pub const LAST_HOUR: i64 = 24;

/// The shortest an event is drawn, in seconds.
pub const SHORTEST_BLOCK: i64 = 15 * 60;

/// The span of a day's hour grid, from the day's local midnight.
pub fn grid_bounds(day_start: i64) -> (r: (i64, i64))
    requires
        -9_000_000_000_000 <= day_start <= 9_000_000_000_000,
    ensures
        r.0 == day_start + FIRST_HOUR * 3600,
        r.1 == day_start + LAST_HOUR * 3600,
{
    (day_start + FIRST_HOUR * 3600, day_start + LAST_HOUR * 3600)
}

/// `x` kept within `[low, high]`.
pub open spec fn clamped(x: int, low: int, high: int) -> int {
    if x < low {
        low
    } else if x > high {
        high
    } else {
        x
    }
}

/// Where a timed event sits on the hour grid: from its start to its end
/// (at least fifteen minutes), both kept within the grid, or nowhere when
/// nothing of it is left inside.
pub open spec fn spec_block(starts_at: int, ends_at: int, grid_start: int, grid_end: int) -> Option<(int, int)> {
    let from = clamped(starts_at, grid_start, grid_end);
    let end = if ends_at > starts_at + SHORTEST_BLOCK {
        ends_at
    } else {
        starts_at + SHORTEST_BLOCK
    };
    let to = clamped(end, grid_start, grid_end);
    if to <= from {
        None
    } else {
        Some((from, to))
    }
}

/// Where a timed event sits on the hour grid.
pub fn block_span(starts_at: i64, ends_at: i64, grid_start: i64, grid_end: i64) -> (r: Option<(i64, i64)>)
    requires
        grid_start <= grid_end,
        starts_at <= i64::MAX - SHORTEST_BLOCK,
    ensures
        match r {
            Some((a, b)) => spec_block(starts_at as int, ends_at as int, grid_start as int, grid_end as int)
                == Some((a as int, b as int)),
            None => spec_block(starts_at as int, ends_at as int, grid_start as int, grid_end as int) is None,
        },
{
    let from = if starts_at < grid_start {
        grid_start
    } else if starts_at > grid_end {
        grid_end
    } else {
        starts_at
    };
    let shortest = starts_at + SHORTEST_BLOCK;
    let end = if ends_at > shortest {
        ends_at
    } else {
        shortest
    };
    let to = if end < grid_start {
        grid_start
    } else if end > grid_end {
        grid_end
    } else {
        end
    };
    if to <= from {
        None
    } else {
        Some((from, to))
    }
}

/// How a month cell shows its events.
#[derive(Clone, Copy, Debug, PartialEq, Eq, Structural)]
pub enum MonthCell {
    /// One dot per event: the column is narrow, or a busy day has room for
    /// just one line.
    Dots,
    /// The first `shown` events as chips, then "`more` more" when some are left.
    Chips { shown: usize, more: usize },
}

/// How a month cell shows `count` events when `fits` lines fit in it;
/// `narrow` is whether the columns are too narrow for titles.
pub fn month_cell(count: usize, fits: usize, narrow: bool) -> (r: MonthCell)
    ensures
        r == (if narrow || (count > fits && fits < 2) {
            MonthCell::Dots
        } else if count > fits {
            MonthCell::Chips { shown: (fits - 1) as usize, more: (count - (fits - 1)) as usize }
        } else {
            MonthCell::Chips { shown: count, more: 0 }
        }),
{
    if narrow || (count > fits && fits < 2) {
        MonthCell::Dots
    } else if count > fits {
        MonthCell::Chips { shown: fits - 1, more: count - (fits - 1) }
    } else {
        MonthCell::Chips { shown: count, more: 0 }
    }
}

/// The label beside a day of the agenda: its weekday, with "Today" or
/// "Tomorrow" when it is one, else its weekday and month.
pub open spec fn spec_agenda_label(d: Date, today: Date) -> Seq<char> {
    let diff = d.days() - today.days();
    if diff == 0 {
        formatted_date(d.year, d.month, d.day, "%a"@) + " · Today"@
    } else if diff == 1 {
        formatted_date(d.year, d.month, d.day, "%a"@) + " · Tomorrow"@
    } else {
        formatted_date(d.year, d.month, d.day, "%a · %b"@)
    }
}

/// The label beside a day of the agenda.
pub fn agenda_label(d: Date, today: Date) -> (r: String)
    requires
        d.valid(),
        today.valid(),
    ensures
        r@ == spec_agenda_label(d, today),
{
    let diff = (days(d) as i64) - (days(today) as i64);
    proof {
        reveal_strlit("%a");
        reveal_strlit("%a · %b");
    }
    if diff == 0 || diff == 1 {
        let mut v = chars_of(format_date(d, "%a").as_str());
        if diff == 0 {
            push_str(&mut v, " · Today");
        } else {
            push_str(&mut v, " · Tomorrow");
        }
        string_of(&v)
    } else {
        format_date(d, "%a · %b")
    }
}

} // verus!
