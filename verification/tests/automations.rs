use ainc_mac::automations::{
    display_time, time_label, every, interval, parse_int, rule_state, run_now, toggle_pause, Automation, AutomationCommand,
    AutomationsPage, entries_of_rule, history_caption, run_pill,
};
use ainc_mac::home::Tone;

fn rule(id: &str) -> Automation {
    Automation {
        id: id.to_string(),
        name: format!("Rule {id}"),
        prompt: "Tidy the inbox".to_string(),
        agent_id: "agent-1".to_string(),
        every_minutes: 45,
        revision: 3,
        applied_revision: 3,
        paused: false,
        error: None,
    }
}

#[test]
fn rules_read_their_state() {
    let mut r = rule("a");
    assert_eq!(rule_state(&r), ("Active", Tone::Success));
    r.paused = true;
    assert_eq!(rule_state(&r), ("Paused", Tone::Neutral));
    r.applied_revision = 2;
    assert_eq!(rule_state(&r), ("Pending", Tone::Warning));
    r.error = Some("boom".to_string());
    assert_eq!(rule_state(&r), ("Needs attention", Tone::Danger));
}

#[test]
fn intervals_read_in_words() {
    assert_eq!(every(1), "Every 1 minute");
    assert_eq!(every(30), "Every 30 minutes");
    assert_eq!(every(0), "Every 0 minutes");
    assert_eq!(every(-1), "Every -1 minutes");
}

#[test]
fn whole_numbers_parse_like_rust() {
    for text in ["0", "42", "-7", "+8", "9223372036854775807", "-9223372036854775808", "007"] {
        assert_eq!(parse_int(text), text.parse::<i64>().ok(), "{text}");
    }
    for text in ["", "-", "+", "4 2", "1.5", "x", "9223372036854775808", "-9223372036854775809", "99999999999999999999999"] {
        assert_eq!(parse_int(text), None, "{text}");
    }
    assert_eq!(interval("  15 \n"), Some(15));
    assert_eq!(interval("fifteen"), None);
}

#[test]
fn saving_needs_minutes_and_an_agent() {
    let mut page = AutomationsPage::new(vec![rule("a")], None);
    let (name, prompt, minutes) = page.edit(None);
    assert_eq!((name.as_str(), prompt.as_str(), minutes.as_str()), ("", "", "30"));
    assert!(page.save("New", "Do it", "soon").is_none());
    assert_eq!(page.error.as_deref(), Some("Enter an interval in whole minutes."));
    assert!(page.save("New", "Do it", "30").is_none());
    assert_eq!(
        page.error.as_deref(),
        Some("Choose an agent. Register one on the Agents page first.")
    );
    let existing = rule("a");
    let (name, _, minutes) = page.edit(Some(&existing));
    assert_eq!((name.as_str(), minutes.as_str()), ("Rule a", "45"));
    match page.save("Renamed", "Do more", " 60 ") {
        Some(AutomationCommand::Save { id, revision, name, title, agent_id, every_minutes }) => {
            assert_eq!(id.as_deref(), Some("a"));
            assert_eq!(revision, Some(3));
            assert_eq!(name, "Renamed");
            assert_eq!(title, "Do more");
            assert_eq!(agent_id, "agent-1");
            assert_eq!(every_minutes, 60);
        }
        _ => panic!("expected a save"),
    }
}

#[test]
fn commands_wait_for_each_other_and_select_their_rule() {
    let mut page = AutomationsPage::new(vec![rule("a")], None);
    assert!(page.start_command(true, run_now(&rule("a"))).is_some());
    assert!(page.pending);
    assert!(page.start_command(true, toggle_pause(&rule("a"))).is_none());
    assert!(!page.start_refresh(true));
    page.command_settled(Ok("b".to_string()), vec![rule("a"), rule("b")]);
    assert!(!page.pending);
    assert_eq!(page.selected.as_deref(), Some("b"));
    assert_eq!(page.selected_rule(), Some(1));
    assert!(page.restore_focus);
    assert!(page.start_command(true, toggle_pause(&rule("b"))).is_some());
    page.command_settled(Err("stale revision".to_string()), vec![]);
    assert_eq!(page.error.as_deref(), Some("stale revision"));
    assert_eq!(page.rules.len(), 2);
    assert!(page.start_command(false, run_now(&rule("a"))).is_none());
}

#[test]
fn refreshes_report_failures_and_recover() {
    let mut page = AutomationsPage::new(vec![], None);
    assert!(page.start_refresh(true));
    assert!(!page.start_refresh(true));
    page.refreshed(Err("offline".to_string()));
    assert_eq!(page.error.as_deref(), Some("Automations unavailable: offline"));
    assert!(!page.loaded);
    assert!(page.start_refresh(true));
    page.refreshed(Ok(vec![rule("x")]));
    assert!(page.loaded && page.error.is_none());
    assert_eq!(page.rules.len(), 1);
    page.workspace_changed(vec![]);
    assert!(page.rules.is_empty() && page.selected.is_none());
}

#[test]
fn pausing_flips_and_running_keeps_the_revision() {
    match toggle_pause(&rule("a")) {
        AutomationCommand::Pause { id, revision, paused } => {
            assert_eq!((id.as_str(), revision, paused), ("a", 3, true));
        }
        _ => panic!(),
    }
    match run_now(&rule("a")) {
        AutomationCommand::RunNow { id, revision } => assert_eq!((id.as_str(), revision), ("a", 3)),
        _ => panic!(),
    }
}

#[test]
fn run_times_read_on_the_clock_or_say_they_cannot() {
    assert_eq!(time_label(None), "Time unavailable");
    assert_eq!(time_label(Some("Sep 26, 14:05".to_string())), "Sep 26, 14:05");
    assert_eq!(display_time(i64::MAX), "Time unavailable");
    let expected = chrono::DateTime::from_timestamp(1_790_000_000, 0)
        .unwrap()
        .with_timezone(&chrono::Local)
        .format("%b %-d, %H:%M")
        .to_string();
    assert_eq!(display_time(1_790_000_000), expected);
}

#[test]
fn runs_read_with_their_tone() {
    assert_eq!(run_pill("completed"), ("completed".to_string(), Tone::Success));
    assert_eq!(run_pill("done"), ("done".to_string(), Tone::Success));
    assert_eq!(run_pill("dispatched"), ("dispatched".to_string(), Tone::Info));
    assert_eq!(run_pill("missed"), ("missed".to_string(), Tone::Warning));
    assert_eq!(run_pill("failed"), ("failed".to_string(), Tone::Danger));
    assert_eq!(run_pill("needs_review"), ("needs review".to_string(), Tone::Neutral));
}

#[test]
fn history_lines_name_time_count_and_kind() {
    assert_eq!(history_caption("Sep 26, 14:05", 3, "tickets_created"), "Sep 26, 14:05 · 3 tickets created");
    let owners = vec!["a".to_string(), "b".to_string(), "a".to_string()];
    assert_eq!(entries_of_rule(&owners, "a"), vec![0, 2]);
    assert!(entries_of_rule(&owners, "c").is_empty());
}
