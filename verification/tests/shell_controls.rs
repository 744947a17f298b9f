use ainc_mac::model::{FontChoice, FontSize, Route, Router};
use ainc_mac::overlay::Overlay;
use ainc_mac::shell::{unread_count, Control, PaletteKey, Shell, WorkspaceCommand};

fn shell() -> Shell {
    Shell {
        router: Router::new(),
        workspace_only: false,
        creating_workspace: false,
        selected: 3,
        workspace_error: None,
        workspace_pending: false,
        sidebar_open: true,
        font: FontChoice::System,
        font_size: FontSize::Default,
        unread: vec![true, false, true],
    }
}

const NO_FORM: (&str, &str, &str) = ("", "", "");

#[test]
fn navigation_moves_through_history_and_closes_overlays() {
    let mut s = shell();
    let e = s.dispatch(Control::Navigate(Route::Calendar), None, true, NO_FORM);
    assert!(e.dismiss && e.focus_shell && !e.show_conversations);
    assert_eq!(s.router.current(), Route::Calendar);
    let e = s.dispatch(Control::Navigate(Route::Assistant), None, true, NO_FORM);
    assert!(e.show_conversations);
    s.dispatch(Control::Back, None, true, NO_FORM);
    assert_eq!(s.router.current(), Route::Calendar);
    s.dispatch(Control::Forward, None, true, NO_FORM);
    assert_eq!(s.router.current(), Route::Assistant);
    let e = s.dispatch(Control::Open(Route::Assistant), None, true, NO_FORM);
    assert!(!e.show_conversations);
}

#[test]
fn an_open_dialog_lets_only_dismiss_through() {
    let mut s = shell();
    let e = s.dispatch(Control::Navigate(Route::Home), Some(Overlay::AddTask), true, NO_FORM);
    assert!(!e.dismiss && !e.focus_shell);
    assert_eq!(s.router.current(), Route::Today);
    s.dispatch(Control::Sidebar, Some(Overlay::DeleteTask(4)), true, NO_FORM);
    assert!(s.sidebar_open);
    let e = s.dispatch(Control::Dismiss, Some(Overlay::AddTask), true, NO_FORM);
    assert!(e.dismiss);
    // A menu is no dialog.
    s.dispatch(Control::Sidebar, Some(Overlay::TaskMenu(1)), true, NO_FORM);
    assert!(!s.sidebar_open);
}

#[test]
fn the_palette_opens_for_pages_or_workspaces() {
    let mut s = shell();
    let e = s.dispatch(Control::WorkspacePicker, None, true, NO_FORM);
    assert!(e.open_picker && s.workspace_only);
    let e = s.dispatch(Control::Search, None, true, NO_FORM);
    assert!(e.open_picker && !s.workspace_only);
}

#[test]
fn workspaces_change_one_at_a_time() {
    let mut s = shell();
    let e = s.dispatch(Control::SwitchWorkspace("w2".to_string()), None, true, NO_FORM);
    assert_eq!(e.workspace, Some(WorkspaceCommand::Switch { id: "w2".to_string() }));
    assert!(e.dismiss && s.workspace_pending);
    let e = s.dispatch(Control::SwitchWorkspace("w3".to_string()), None, true, NO_FORM);
    assert!(e.workspace.is_none());
    assert!(!s.workspace_settled(Err("gone".to_string())));
    assert_eq!(s.workspace_error.as_deref(), Some("Workspace unavailable: gone"));
    let e = s.dispatch(Control::SwitchWorkspace("w3".to_string()), None, false, NO_FORM);
    assert!(e.workspace.is_none());
    assert!(s.dispatch(Control::SwitchWorkspace("w3".to_string()), None, true, NO_FORM).workspace.is_some());
    assert!(s.workspace_error.is_none());
    assert!(s.workspace_settled(Ok(())));
}

#[test]
fn the_creation_form_checks_its_fields() {
    let mut s = shell();
    let e = s.dispatch(Control::NewWorkspace, None, true, NO_FORM);
    assert!(e.reset_form && s.creating_workspace && s.selected == 0);
    let e = s.dispatch(Control::CreateWorkspace, None, true, ("  ", "", ""));
    assert!(e.workspace.is_none());
    assert_eq!(
        s.workspace_error.as_deref(),
        Some("Enter a name, up to four icon characters, and an optional #RRGGBB color.")
    );
    let e = s.dispatch(Control::CreateWorkspace, None, true, (" Home ", "🏠", "#A0b1C2"));
    assert_eq!(
        e.workspace,
        Some(WorkspaceCommand::Create {
            name: "Home".to_string(),
            icon: Some("🏠".to_string()),
            color: Some("#A0b1C2".to_string()),
        })
    );
    assert!(s.workspace_error.is_none() && s.workspace_pending);
}

#[test]
fn panes_fonts_and_notifications_follow_their_commands() {
    let mut s = shell();
    s.dispatch(Control::Sidebar, None, true, NO_FORM);
    assert!(!s.sidebar_open);
    s.dispatch(Control::Font(FontChoice::HelveticaNeue), None, true, NO_FORM);
    assert_eq!(s.font, FontChoice::HelveticaNeue);
    let e = s.dispatch(Control::FontSize(FontSize::Large), None, true, NO_FORM);
    assert!(e.rescale && s.font_size == FontSize::Large);
    let e = s.dispatch(Control::Notifications, None, true, NO_FORM);
    assert!(e.open_notifications && !e.dismiss);
    let e = s.dispatch(Control::Notifications, Some(Overlay::Notifications), true, NO_FORM);
    assert!(e.dismiss && !e.open_notifications);
    s.dispatch(Control::MarkAllRead, None, true, NO_FORM);
    assert_eq!(s.unread, vec![false, false, false]);
}

#[test]
fn unread_notifications_are_counted() {
    assert_eq!(unread_count(&vec![true, false, true]), 2);
    assert_eq!(unread_count(&vec![]), 0);
    let mut s = shell();
    s.dispatch(Control::MarkAllRead, None, true, NO_FORM);
    assert_eq!(unread_count(&s.unread), 0);
}

#[test]
fn palette_keys_move_the_highlight_and_choose() {
    let mut s = shell();
    s.dispatch(Control::Search, None, true, NO_FORM);
    assert_eq!(s.selected, 0);
    assert_eq!(s.palette_key("down", 3), PaletteKey::Handled);
    assert_eq!(s.palette_key("down", 3), PaletteKey::Handled);
    assert_eq!(s.palette_key("down", 3), PaletteKey::Handled);
    assert_eq!(s.selected, 2);
    assert_eq!(s.palette_key("enter", 3), PaletteKey::Choose(2));
    assert_eq!(s.palette_key("up", 3), PaletteKey::Handled);
    assert_eq!(s.selected, 1);
    assert_eq!(s.palette_key("x", 3), PaletteKey::Ignored);
    assert_eq!(s.palette_key("enter", 0), PaletteKey::Handled);
    s.dispatch(Control::NewWorkspace, None, true, NO_FORM);
    assert_eq!(s.palette_key("down", 3), PaletteKey::Handled);
    assert_eq!(s.selected, 0);
    assert_eq!(s.palette_key("enter", 3), PaletteKey::CreateWorkspace);
    s.dispatch(Control::WorkspacePicker, None, true, NO_FORM);
    assert!(!s.creating_workspace && s.workspace_error.is_none());
}
