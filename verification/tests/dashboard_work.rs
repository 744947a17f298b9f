use ainc_mac::dates::Date;
use ainc_mac::dashboard::{
    headings, inside_waiting, more_line, next_line, work_line,
    first_name, open_tickets, running_runs, status_label, title, work_list, TicketRow,
    TicketStatus,
};
use ainc_mac::home::Tone;

fn row(id: i64, status: TicketStatus) -> TicketRow {
    TicketRow { id, status }
}

#[test]
fn the_title_greets_by_first_name() {
    assert_eq!(title(9, "Ada Lovelace"), "Good morning, Ada");
    assert_eq!(title(20, "  Grace  Hopper "), "Good evening, Grace");
    assert_eq!(title(13, ""), "Good afternoon");
    assert_eq!(title(2, "   "), "Hello");
    assert_eq!(first_name("\tLinus\nTorvalds"), "Linus");
}

#[test]
fn statuses_have_labels_and_tones() {
    assert_eq!(status_label(TicketStatus::InProgress), ("In progress", Tone::Info));
    assert_eq!(status_label(TicketStatus::ToDo), ("To do", Tone::Neutral));
    assert_eq!(status_label(TicketStatus::Backlog), ("Backlog", Tone::Neutral));
    assert_eq!(status_label(TicketStatus::Done), ("Done", Tone::Success));
}

#[test]
fn done_tickets_leave_the_work_list() {
    let all = vec![row(1, TicketStatus::Done), row(2, TicketStatus::ToDo), row(3, TicketStatus::Done)];
    assert_eq!(open_tickets(&all), vec![row(2, TicketStatus::ToDo)]);
}

#[test]
fn runs_under_way_are_counted() {
    let states: Vec<String> =
        ["queued", "done", "running", "failed", "running"].iter().map(|s| s.to_string()).collect();
    assert_eq!(running_runs(&states), 3);
    assert_eq!(running_runs(&vec![]), 0);
}

#[test]
fn work_lists_active_tickets_first_and_newest_first() {
    let open = vec![
        row(1, TicketStatus::Backlog),
        row(2, TicketStatus::ToDo),
        row(3, TicketStatus::InProgress),
        row(4, TicketStatus::ToDo),
        row(5, TicketStatus::Backlog),
        row(6, TicketStatus::InProgress),
        row(7, TicketStatus::Backlog),
    ];
    let shown: Vec<i64> = work_list(&open).iter().map(|&k| open[k].id).collect();
    assert_eq!(shown, vec![6, 3, 4, 2, 7]);
    assert!(work_list(&vec![]).is_empty());
}

#[test]
fn the_band_summarises_work_and_the_next_event() {
    assert_eq!(work_line(&vec![], 3), "All clear");
    let open = vec![row(1, TicketStatus::InProgress), row(2, TicketStatus::ToDo), row(3, TicketStatus::InProgress)];
    assert_eq!(work_line(&open, 1), "2 in progress · 1 running");
    let today = Date { year: 2026, month: 9, day: 26 };
    let tomorrow = Date { year: 2026, month: 9, day: 27 };
    assert_eq!(next_line("Dentist", 100, 100, today, today), "Dentist · now");
    assert_eq!(next_line("Dentist", 100 + 25 * 60, 100, today, today), "Dentist · in 25 min");
    assert_eq!(next_line("Dentist", 100 + 86_400, 100, tomorrow, today), "Dentist · Tomorrow");
    assert_eq!(inside_waiting(true, false), "Connect your control center");
    assert_eq!(inside_waiting(true, true), "Waiting for the thermostat");
    assert_eq!(inside_waiting(false, false), "Waiting for the thermostat");
}

#[test]
fn upcoming_days_start_new_headings() {
    let d = |day: u32| Date { year: 2026, month: 9, day };
    let today = d(26);
    // An event that began yesterday is listed under today.
    let days = vec![d(25), d(26), d(26), d(28), d(28), d(29)];
    assert_eq!(headings(&days, today), vec![(0, d(26)), (3, d(28)), (5, d(29))]);
    assert!(headings(&vec![], today).is_empty());
    assert_eq!(more_line(4), None);
    assert_eq!(more_line(7).as_deref(), Some("3 more on the Calendar"));
}
