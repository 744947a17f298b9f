use ainc_mac::calendar::{
    cover, default_window, import_running, upcoming, CalendarEvent, EventSource, DAY,
};

fn event(id: &str, starts_at: i64, ends_at: i64) -> CalendarEvent {
    CalendarEvent {
        id: id.into(),
        source: EventSource::Macos,
        calendar: "Home".into(),
        color: None,
        title: id.into(),
        location: None,
        notes: None,
        starts_at,
        ends_at,
        all_day: false,
        revision: 0,
    }
}

#[test]
fn the_first_window_reaches_back_two_months() {
    assert_eq!(default_window(0), (-62 * DAY, 200 * DAY));
    assert_eq!(default_window(1_000), (1_000 - 62 * DAY, 1_000 + 200 * DAY));
}

#[test]
fn covered_ranges_load_nothing_new() {
    let window = (0, 100 * DAY);
    assert_eq!(cover(window, 10 * DAY, 20 * DAY), None);
    assert_eq!(cover(window, 0, 100 * DAY), None);
    assert_eq!(cover(window, 90 * DAY, 110 * DAY), Some((59 * DAY, 230 * DAY)));
    // No more than 399 days at once, unless the range itself is longer.
    assert_eq!(cover(window, 200 * DAY, 500 * DAY), Some((169 * DAY, 568 * DAY)));
    assert_eq!(cover(window, 200 * DAY, 600 * DAY), Some((169 * DAY, 600 * DAY)));
}

#[test]
fn upcoming_skips_what_ended() {
    let events = vec![event("a", 0, 10), event("b", 5, 50), event("c", 60, 70), event("d", 80, 90)];
    let ids: Vec<&str> = upcoming(&events, 20, 2).iter().map(|e| e.id.as_str()).collect();
    assert_eq!(ids, vec!["b", "c"]);
    assert!(upcoming(&events, 20, 0).is_empty());
    assert!(upcoming(&events, 100, 5).is_empty());
}

#[test]
fn upcoming_lists_soonest_first() {
    let events = vec![event("late", 80, 90), event("soon", 30, 40), event("tie", 80, 85), event("done", 0, 5)];
    let ids: Vec<&str> = upcoming(&events, 20, 5).iter().map(|e| e.id.as_str()).collect();
    assert_eq!(ids, vec!["soon", "late", "tie"]);
    let ids: Vec<&str> = upcoming(&events, 20, 1).iter().map(|e| e.id.as_str()).collect();
    assert_eq!(ids, vec!["soon"]);
}

#[test]
fn imports_run_while_queued_or_running() {
    assert!(import_running("queued"));
    assert!(import_running("running"));
    assert!(!import_running("done"));
    assert!(!import_running(""));
}
