use ainc_mac::overlay::{cycle_focus, Overlay, OverlayHost};

#[test]
fn closing_rename_clears_the_topmost_overlay() {
    let mut host: OverlayHost<u32> = OverlayHost::new();
    host.open(Overlay::RenameConversation(42), None, None);
    host.close(); // Escape and Cancel both use this state transition.
    assert_eq!(host.active(), None);
}

#[test]
fn focus_goes_back_to_what_had_it_before_the_first_overlay() {
    let mut host: OverlayHost<&str> = OverlayHost::new();
    assert_eq!(host.open(Overlay::TaskMenu(1), Some("list"), Some("menu")), Some("menu"));
    host.open(Overlay::DeleteTask(1), Some("menu"), None);
    assert_eq!(host.active(), Some(Overlay::DeleteTask(1)));
    assert_eq!(host.dismiss(), (true, Some("list")));
    assert_eq!(host.dismiss(), (false, None));
    host.open(Overlay::Search, Some("sidebar"), None);
    host.close();
    assert_eq!(host.take_pending_focus(), Some("sidebar"));
    assert_eq!(host.take_pending_focus(), None);
}

#[test]
fn overlays_are_dialogs_or_menus() {
    assert!(Overlay::AddTask.is_dialog());
    assert!(Overlay::DeleteConversation(3).is_dialog());
    assert!(!Overlay::Search.is_dialog());
    assert!(Overlay::ConversationMenu(3).is_menu());
    assert!(!Overlay::Notifications.is_menu());
    assert!(!Overlay::RenameConversation(1).is_menu());
}

#[test]
fn tab_cycles_round_the_handles() {
    assert_eq!(cycle_focus(0, None, false), None);
    assert_eq!(cycle_focus(3, None, false), Some(0));
    assert_eq!(cycle_focus(3, None, true), Some(2));
    assert_eq!(cycle_focus(3, Some(2), false), Some(0));
    assert_eq!(cycle_focus(3, Some(0), true), Some(2));
    assert_eq!(cycle_focus(3, Some(1), true), Some(0));
}
