use ainc_mac::evee::{
    active_turn, chosen_model, pick_conversation, turn_done, turns_of, ConversationState,
};

fn states(all: &[&str]) -> Vec<String> {
    all.iter().map(|s| s.to_string()).collect()
}

#[test]
fn the_shown_conversation_survives_or_falls_back() {
    let ids = vec![4, 7, 9];
    assert_eq!(pick_conversation(Some(7), &ids, Some(9)), Some(7));
    assert_eq!(pick_conversation(Some(5), &ids, Some(9)), Some(9));
    assert_eq!(pick_conversation(Some(5), &ids, Some(1)), Some(4));
    assert_eq!(pick_conversation(None, &ids, None), Some(4));
    assert_eq!(pick_conversation(Some(5), &vec![], Some(5)), None);
}

#[test]
fn only_the_conversations_turns_are_shown() {
    assert_eq!(turns_of(Some(2), &vec![1, 2, 2, 3, 2]), vec![1, 2, 4]);
    assert!(turns_of(None, &vec![1, 2]).is_empty());
}

#[test]
fn the_first_waiting_turn_is_watched() {
    let ids = vec![10, 11, 12];
    assert_eq!(active_turn(&ids, &states(&["done", "running", "queued"])), Some(11));
    assert_eq!(active_turn(&ids, &states(&["done", "failed", "done"])), None);
    assert!(turn_done(&ids, &states(&["done", "running", "queued"]), 10));
    assert!(!turn_done(&ids, &states(&["done", "running", "queued"]), 12));
    assert!(turn_done(&ids, &states(&["done", "running", "queued"]), 99));
    assert_eq!(chosen_model(Some(String::new())), None);
    assert_eq!(chosen_model(Some("m".to_string())), Some("m".to_string()));
    assert_eq!(chosen_model(None), None);
}

#[test]
fn conversation_changes_run_one_at_a_time() {
    let mut s = ConversationState::new();
    assert!(!s.start_change(false));
    assert!(s.start_change(true));
    assert!(!s.start_change(true));
    s.change_failed("store busy".to_string());
    assert_eq!(s.error.as_deref(), Some("store busy"));
    assert_eq!(s.form_error.as_deref(), Some("store busy"));
    assert!(!s.pending);
    assert!(s.start_change(true));
    assert!(s.error.is_none());
    s.opened(7);
    assert_eq!(s.conversation, Some(7));
    assert!(s.show_chat);
    assert_eq!(s.rename_title("  Trip plans "), None);
    s.dialog_done(false);
    assert_eq!(s.rename_title("  Trip plans ").as_deref(), Some("Trip plans"));
    assert_eq!(s.rename_title("   "), None);
    s.dialog_done(true);
    assert!(!s.show_chat);
    s.cleared(9);
    assert_eq!(s.notice.as_deref(), Some("Conversation cleared."));
    s.help_open = true;
    s.palette_index = 3;
    s.submitting();
    assert!(!s.help_open && s.notice.is_none() && s.palette_index == 0);
    s.workspace_changed();
    assert!(s.conversation.is_none());
}
