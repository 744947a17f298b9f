use ainc_mac::calendar_page::{delete_command, save, CalendarCommand, Editing, EventEditor, EventForm, SaveStep};
use ainc_mac::dates::Date;

fn form(title: &str, date: &str) -> EventForm {
    EventForm {
        title: title.into(),
        date: date.into(),
        start: "3pm".into(),
        end: "4pm".into(),
        all_day: false,
        location: " Room 4 ".into(),
        notes: "".into(),
    }
}

fn today() -> Date {
    Date { year: 2026, month: 9, day: 26 }
}

#[test]
fn mirrored_events_only_close() {
    assert!(matches!(save(&Editing::Mirror("m1".into()), &form("", ""), today()), SaveStep::Close));
    assert!(delete_command(&Editing::Mirror("m1".into())).is_none());
    assert!(delete_command(&Editing::New).is_none());
}

#[test]
fn new_events_are_created_and_own_ones_updated() {
    match save(&Editing::New, &form(" Dentist ", "Sep 28"), today()) {
        SaveStep::Run(CalendarCommand::Create { title, ends_at, starts_at, all_day, location, notes }) => {
            assert_eq!(title, "Dentist");
            assert_eq!(ends_at - starts_at, 3600);
            assert!(!all_day);
            assert_eq!(location.as_deref(), Some("Room 4"));
            assert!(notes.is_none());
        }
        _ => panic!("expected a new event"),
    }
    let editing = Editing::Own { id: "e7".into(), revision: 4 };
    match save(&editing, &form("Dentist", "2026-09-28"), today()) {
        SaveStep::Run(CalendarCommand::Update { id, revision, title, .. }) => {
            assert_eq!((id.as_str(), revision, title.as_str()), ("e7", 4, "Dentist"));
        }
        _ => panic!("expected an update"),
    }
    match delete_command(&editing) {
        Some(CalendarCommand::Delete { id, revision }) => assert_eq!((id.as_str(), revision), ("e7", 4)),
        _ => panic!("expected a delete"),
    }
}

#[test]
fn bad_fields_say_why() {
    match save(&Editing::New, &form("  ", "Sep 28"), today()) {
        SaveStep::Error(m) => assert_eq!(m, "Give the event a title."),
        _ => panic!("expected an error"),
    }
    match save(&Editing::New, &form("Dentist", "someday"), today()) {
        SaveStep::Error(m) => assert_eq!(m, "Use a date such as Sep 26 or 2026-09-26."),
        _ => panic!("expected an error"),
    }
}

#[test]
fn the_editor_sends_once_and_closes_on_success() {
    let mut editor = EventEditor::new();
    assert!(editor.save(&form("Dentist", "Sep 28"), today()).is_none());
    editor.open(Editing::New);
    assert!(editor.save(&form(" ", "Sep 28"), today()).is_none());
    assert_eq!(editor.form_error.as_deref(), Some("Give the event a title."));
    assert!(matches!(editor.save(&form("Dentist", "Sep 28"), today()), Some(CalendarCommand::Create { .. })));
    assert!(editor.pending && editor.form_error.is_none());
    assert!(!editor.settled(Err("Revision changed".into())));
    assert_eq!(editor.form_error.as_deref(), Some("Revision changed"));
    assert!(editor.editing.is_some() && !editor.pending);
    assert!(editor.settled(Ok(())));
    assert!(editor.editing.is_none());
    editor.open(Editing::Own { id: "e1".into(), revision: 2 });
    assert!(matches!(editor.delete(), Some(CalendarCommand::Delete { revision: 2, .. })));
    editor.open(Editing::Mirror("m".into()));
    assert!(editor.delete().is_none());
    assert!(editor.save(&form("x", "Sep 28"), today()).is_none());
    assert!(editor.editing.is_none());
}
