use ainc_mac::calendar::{
    ago, clock_text, date_text, day_label, events_between, lanes, month_grid, on_day, parse_date,
    parse_time, span, stable_order, time_text_of, until, week, CalendarEvent, EventSource,
};
use ainc_mac::dates::{at, day_start, local, today, Date, LocalTime, Time};
use chrono::Datelike;

fn ymd(year: i32, month: u32, day: u32) -> Date {
    chrono::NaiveDate::from_ymd_opt(year, month, day).unwrap();
    Date { year, month, day }
}

fn plus(d: Date, n: i32) -> Date {
    let shifted = chrono::NaiveDate::from_ymd_opt(d.year, d.month, d.day).unwrap()
        + chrono::Duration::days(n as i64);
    Date { year: shifted.year(), month: shifted.month(), day: shifted.day() }
}

fn event(id: &str, title: &str, d: Date, start: (u32, u32), minutes: i64) -> CalendarEvent {
    let starts_at = at(d, Time { hour: start.0, minute: start.1 }).unwrap();
    CalendarEvent {
        id: id.into(),
        source: EventSource::Macos,
        calendar: "Home".into(),
        color: None,
        title: title.into(),
        location: None,
        notes: None,
        starts_at,
        ends_at: starts_at + minutes * 60,
        all_day: false,
        revision: 0,
    }
}

fn fortnight() -> Vec<CalendarEvent> {
    let today = today();
    let d = |n: i32| plus(today, n);
    let mut events = vec![
        event("standup", "Team standup", d(0), (9, 30), 15),
        event("dentist", "Dentist", d(0), (15, 0), 60),
        event("dinner", "Dinner with Sam", d(0), (19, 30), 120),
        event("gym", "Gym", d(1), (7, 0), 60),
        event("review", "Design review", d(1), (11, 0), 90),
        event("sync", "Roadmap sync", d(1), (11, 30), 30),
        event("flight", "Flight to SFO", d(3), (8, 15), 95),
        event("offsite", "Offsite", d(4), (10, 0), 360),
        event("brunch", "Brunch", d(6), (11, 0), 90),
        event("call", "Call with Mum", d(8), (18, 0), 45),
    ];
    let mut holiday = event("holiday", "Long weekend", d(5), (0, 0), 0);
    holiday.all_day = true;
    holiday.starts_at = day_start(d(5));
    holiday.ends_at = day_start(d(7));
    events.push(holiday);
    let mut own = event("own", "Plan the week", d(2), (9, 0), 60);
    own.source = EventSource::Agentinc;
    own.calendar = "AgentInc".into();
    events.push(own);
    events.sort_by_key(|e| e.starts_at);
    events
}

#[test]
fn month_grids_start_on_monday_and_cover_the_month() {
    let september = ymd(2026, 9, 26);
    let grid = month_grid(september);
    assert_eq!(grid.len(), 42);
    assert_eq!(grid[0], ymd(2026, 8, 31));
    assert_eq!(grid[1], ymd(2026, 9, 1));
    assert_eq!(week(september)[0], ymd(2026, 9, 21));
}

#[test]
fn overlapping_events_share_lanes_and_later_ones_reuse_them() {
    let d = ymd(2026, 9, 27);
    let review = event("review", "Design review", d, (11, 0), 90);
    let sync = event("sync", "Roadmap sync", d, (11, 30), 30);
    let lunch = event("lunch", "Lunch", d, (12, 0), 60);
    let evening = event("evening", "Evening", d, (18, 0), 60);
    let day = [&review, &sync, &lunch, &evening];
    assert_eq!(lanes(&day), [(0, 2), (1, 2), (1, 2), (0, 1)]);
}

#[test]
fn forms_accept_the_ways_people_type_dates_and_times() {
    let today = ymd(2026, 9, 26);
    let expected = ymd(2026, 10, 3);
    for text in ["2026-10-03", "10/3/2026", "10/3", "Oct 3", "Oct 3, 2026", "October 3"] {
        assert_eq!(parse_date(text, today), Some(expected), "{text}");
    }
    assert_eq!(parse_date("someday", today), None);
    let three = Time { hour: 15, minute: 0 };
    for text in ["15:00", "3:00 PM", "3pm", "3 pm", "03:00pm"] {
        assert_eq!(parse_time(text), Some(three), "{text}");
    }
    assert_eq!(parse_time("25:00"), None);
    assert_eq!(parse_date(&date_text(expected), today), Some(expected));
}

#[test]
fn spans_and_relative_labels_read_naturally() {
    let d = ymd(2026, 9, 26);
    let dentist = event("d", "Dentist", d, (15, 0), 60);
    assert_eq!(span(&dentist), "3 – 4 PM");
    let late = event("l", "Late", d, (11, 30), 45);
    assert_eq!(span(&late), "11:30 AM – 12:15 PM");
    assert_eq!(day_label(d, d), "Today");
    assert_eq!(day_label(plus(d, 1), d), "Tomorrow");
    assert_eq!(day_label(plus(d, 2), d), "Mon, Sep 28");
    assert_eq!(until(1_000 + 25 * 60, 1_000), "in 25 min");
    assert_eq!(until(1_000 + 3 * 3600, 1_000), "in 3 h");
    assert_eq!(ago(1_000, 1_000 + 120), "2 min ago");
}

#[test]
fn a_day_lists_all_day_events_first_and_includes_spanning_ones() {
    let events = fortnight();
    let holiday_second_day = plus(today(), 6);
    let (day, _) = on_day(&events, holiday_second_day);
    assert_eq!(day[0].title, "Long weekend");
    assert!(day.iter().any(|e| e.title == "Brunch"));
    assert!(on_day(&events, plus(today(), 7)).0.is_empty());
}

#[test]
fn a_day_spans_local_midnight_to_the_next() {
    let d = ymd(2026, 9, 26);
    let (_, span) = on_day(&[], d);
    assert_eq!(span, (day_start(d), day_start(plus(d, 1))));
    let last = ymd(262_142, 12, 31);
    let (shown, span) = on_day(&[], last);
    assert!(shown.is_empty());
    assert_eq!(span.0, span.1);
}

#[test]
fn weeks_and_grids_reach_the_ends_of_the_calendar() {
    let late = week(ymd(262_142, 12, 25));
    assert_eq!(late.len(), 7);
    assert!(late.contains(&ymd(262_142, 12, 25)));
    assert_eq!(late[6], plus(late[0], 6));
    let early = week(ymd(-262_143, 1, 7));
    assert_eq!(early.len(), 7);
    assert!(early.contains(&ymd(-262_143, 1, 7)));
    let grid = month_grid(ymd(262_142, 11, 30));
    assert_eq!(grid.len(), 42);
    assert!(grid.contains(&ymd(262_142, 11, 1)));
    assert!(grid.contains(&ymd(262_142, 11, 30)));
    let grid = month_grid(ymd(-262_143, 2, 1));
    assert_eq!(grid.len(), 42);
    assert!(grid.contains(&ymd(-262_143, 2, 28)));
}

#[test]
fn a_week_runs_monday_to_sunday_around_its_day() {
    let days = week(ymd(2026, 9, 26));
    assert_eq!(days, (21..=27).map(|d| ymd(2026, 9, d)).collect::<Vec<_>>());
    let days = week(ymd(2026, 9, 28));
    assert_eq!(days[0], ymd(2026, 9, 28));
    let days = week(ymd(2027, 1, 3));
    assert_eq!(days[0], ymd(2026, 12, 28));
    assert_eq!(days[6], ymd(2027, 1, 3));
}

#[test]
fn relative_labels_cover_every_range() {
    assert_eq!(until(0, 100), "now");
    assert_eq!(until(159, 100), "now");
    assert_eq!(until(160, 100), "in 1 min");
    assert_eq!(until(100 + 90 * 60, 100), "in 2 h");
    assert_eq!(until(100 + 36 * 3600, 100), "in 2 days");
    assert_eq!(until(100 + 24 * 3600, 100), "in 1 day");
    assert_eq!(ago(500, 100), "just now");
    assert_eq!(ago(0, 59), "just now");
    assert_eq!(ago(0, 3 * 3600 + 59), "3 h ago");
    assert_eq!(ago(0, 3 * 86_400), "3 days ago");
    assert_eq!(day_label(plus(ymd(2026, 9, 26), -1), ymd(2026, 9, 26)), "Yesterday");
    assert_eq!(day_label(ymd(2027, 1, 4), ymd(2026, 9, 26)), "Mon, Jan 4, 2027");
}

#[test]
fn clock_times_read_on_a_twelve_hour_dial() {
    let d = ymd(2026, 9, 26);
    let t = |hour, minute| LocalTime { date: d, hour, minute };
    assert_eq!(clock_text(t(0, 0)), "12 AM");
    assert_eq!(clock_text(t(12, 5)), "12:05 PM");
    assert_eq!(clock_text(t(23, 59)), "11:59 PM");
    assert_eq!(time_text_of(t(9, 0)), "9:00 AM");
    assert_eq!(parse_time("12:00 am"), Some(Time { hour: 0, minute: 0 }));
    assert_eq!(parse_time(" 9:05 "), Some(Time { hour: 9, minute: 5 }));
    assert_eq!(parse_time("noon"), None);
}

#[test]
fn all_day_spans_count_their_days() {
    let d = ymd(2026, 9, 26);
    let mut e = event("h", "Holiday", d, (0, 0), 0);
    e.all_day = true;
    e.ends_at = e.starts_at + 86_400;
    assert_eq!(span(&e), "All day");
    e.ends_at = e.starts_at + 3 * 86_400;
    assert_eq!(span(&e), "All day · 3 days");
    let moment = event("m", "Reminder", d, (9, 30), 0);
    assert_eq!(span(&moment), "9:30 AM");
}

#[test]
fn stable_order_keeps_ties_in_list_order() {
    let keys = vec![(1, 5), (0, 9), (1, 5), (0, 2)];
    assert_eq!(stable_order(&keys), vec![3, 1, 0, 2]);
    assert_eq!(stable_order(&vec![]), Vec::<usize>::new());
}

#[test]
fn a_day_keeps_moments_and_drops_neighbours() {
    let d = ymd(2026, 9, 26);
    let start = day_start(d);
    let end = day_start(plus(d, 1));
    let mut moment = event("m", "Moment", d, (0, 0), 0);
    moment.starts_at = start;
    moment.ends_at = start;
    let mut before = event("b", "Before", d, (0, 0), 0);
    before.starts_at = start - 3600;
    before.ends_at = start;
    let mut after = event("a", "After", d, (0, 0), 0);
    after.starts_at = end;
    after.ends_at = end + 60;
    let events = vec![before, moment, after];
    let shown = events_between(&events, start, end);
    assert_eq!(shown.len(), 1);
    assert_eq!(shown[0].title, "Moment");
}

#[test]
fn lanes_are_within_their_cluster() {
    let d = ymd(2026, 9, 27);
    let a = event("a", "A", d, (9, 0), 120);
    let b = event("b", "B", d, (9, 0), 30);
    let c = event("c", "C", d, (9, 10), 5);
    let e = event("e", "E", d, (10, 0), 30);
    let day = [&b, &a, &c, &e];
    let placed = lanes(&day);
    assert_eq!(placed, [(1, 3), (0, 3), (2, 3), (1, 3)]);
    for (lane, width) in placed {
        assert!(lane < width);
    }
    assert!(lanes(&[]).is_empty());
}

#[test]
fn midnight_lies_within_a_day_of_utc_midnight() {
    let d = ymd(2026, 9, 26);
    let utc_midnight = (20_722) * 86_400;
    let start = day_start(d);
    assert!(start == 0 || (start - utc_midnight).abs() < 86_400);
}

#[test]
fn the_clock_reads_within_a_day_of_the_moment() {
    let moment = 1_790_000_000;
    let t = local(moment);
    let days = chrono::NaiveDate::from_ymd_opt(t.date.year, t.date.month, t.date.day)
        .unwrap()
        .signed_duration_since(chrono::NaiveDate::from_ymd_opt(1970, 1, 1).unwrap())
        .num_days();
    let reading = days * 86_400 + t.hour as i64 * 3_600 + t.minute as i64 * 60;
    assert!(moment - 86_460 < reading && reading < moment + 86_400);
    let (_, span) = on_day(&[], t.date);
    assert!(span.0 <= moment + 86_400 && moment - 2 * 86_400 < span.0);
}
