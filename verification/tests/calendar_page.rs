use ainc_mac::calendar_page::{
    draft, next_start_hour, period, placed, range, range_days, read_form, step, CalendarView,
    EventForm,
};
use ainc_mac::dates::{Date, Time};

fn day(year: i32, month: u32, day: u32) -> Date {
    Date { year, month, day }
}

fn form(title: &str, date: &str, start: &str, end: &str, all_day: bool) -> EventForm {
    EventForm {
        title: title.into(),
        date: date.into(),
        start: start.into(),
        end: end.into(),
        all_day,
        location: "  ".into(),
        notes: " Bring slides ".into(),
    }
}

#[test]
fn views_step_by_month_week_and_fortnight() {
    let anchor = day(2026, 9, 26);
    assert_eq!(step(CalendarView::Month, anchor, true), Some(day(2026, 10, 1)));
    assert_eq!(step(CalendarView::Month, anchor, false), Some(day(2026, 8, 1)));
    assert_eq!(step(CalendarView::Month, day(2026, 12, 31), true), Some(day(2027, 1, 1)));
    assert_eq!(step(CalendarView::Month, day(2026, 1, 5), false), Some(day(2025, 12, 1)));
    assert_eq!(step(CalendarView::Week, anchor, true), Some(day(2026, 10, 3)));
    assert_eq!(step(CalendarView::Agenda, anchor, false), Some(day(2026, 9, 12)));
}

#[test]
fn views_cover_whole_weeks_and_the_agenda_span() {
    let anchor = day(2026, 9, 26);
    assert_eq!(range_days(CalendarView::Month, anchor), (day(2026, 8, 31), day(2026, 10, 12)));
    assert_eq!(range_days(CalendarView::Week, anchor), (day(2026, 9, 21), day(2026, 9, 28)));
    assert_eq!(range_days(CalendarView::Agenda, anchor), (day(2026, 9, 26), day(2026, 11, 8)));
    let (from, to) = range(CalendarView::Week, anchor);
    assert!(to - from >= 7 * 86_400 - 3_600 && to - from <= 7 * 86_400 + 3_600);
}

#[test]
fn headings_name_the_month_or_the_span() {
    let anchor = day(2026, 9, 26);
    assert_eq!(period(CalendarView::Month, anchor), "September 2026");
    assert_eq!(period(CalendarView::Week, anchor), "Sep 21 – 27, 2026");
    assert_eq!(period(CalendarView::Week, day(2026, 9, 30)), "Sep 28 – Oct 4, 2026");
    assert_eq!(period(CalendarView::Agenda, anchor), "Sep 26 – Nov 7, 2026");
}

#[test]
fn new_events_start_in_waking_hours() {
    assert_eq!(next_start_hour(2), 9);
    assert_eq!(next_start_hour(13), 14);
    assert_eq!(next_start_hour(22), 20);
}

#[test]
fn the_editor_says_which_field_is_wrong() {
    let today = day(2026, 9, 26);
    assert_eq!(read_form(&form("  ", "Sep 26", "3pm", "4pm", false), today).err().as_deref(), Some("Give the event a title."));
    assert_eq!(
        read_form(&form("Dentist", "someday", "3pm", "4pm", false), today).err().as_deref(),
        Some("Use a date such as Sep 26 or 2026-09-26.")
    );
    assert_eq!(
        read_form(&form("Dentist", "Sep 26", "soon", "4pm", false), today).err().as_deref(),
        Some("Use a start time such as 3:00 PM.")
    );
    assert_eq!(
        read_form(&form("Dentist", "Sep 26", "3pm", "later", false), today).err().as_deref(),
        Some("Use an end time such as 4:00 PM.")
    );
    let reading = read_form(&form(" Dentist ", "Oct 3", "3pm", "4:30 PM", false), today).ok().unwrap();
    assert_eq!(reading.title, "Dentist");
    assert_eq!(reading.date, day(2026, 10, 3));
    assert_eq!(reading.times, Some((Time { hour: 15, minute: 0 }, Time { hour: 16, minute: 30 })));
    assert_eq!(reading.location, None);
    assert_eq!(reading.notes.as_deref(), Some("Bring slides"));
    let all_day = read_form(&form("Trip", "2026-10-03", "", "", true), today).ok().unwrap();
    assert_eq!(all_day.times, None);
}

#[test]
fn ends_before_starts_run_past_midnight() {
    assert_eq!(placed(Some(100), Some(50)), Ok((100, 86_450)));
    assert_eq!(placed(Some(100), Some(100)), Ok((100, 86_500)));
    assert_eq!(placed(Some(100), Some(200)), Ok((100, 200)));
    assert_eq!(placed(None, Some(200)), Err("That time does not exist on this date.".to_string()));
    let today = day(2026, 9, 26);
    let late = draft(&form("Late", "Sep 26", "11:30 PM", "12:15 AM", false), today).ok().unwrap();
    assert_eq!(late.ends_at - late.starts_at, 45 * 60);
    let all_day = draft(&form("Trip", "Sep 26", "", "", true), today).ok().unwrap();
    assert!(all_day.all_day);
    assert!(all_day.ends_at - all_day.starts_at >= 23 * 3_600);
    assert_eq!(draft(&form("", "Sep 26", "", "", true), today).err().as_deref(), Some("Give the event a title."));
}
