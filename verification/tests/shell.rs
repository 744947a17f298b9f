use ainc_mac::model::Route;
use ainc_mac::overlay::Overlay;
use ainc_mac::shell::{
    clone_entry, lets_through, new_workspace, palette_items, PaletteEntry, PaletteItem, Side,
    Workspace, WorkspaceCommand,
};

fn workspaces() -> Vec<Workspace> {
    vec![
        Workspace { id: "w1".into(), name: "Personal".into(), icon: Some("P".into()) },
        Workspace { id: "w2".into(), name: "Acme Launch".into(), icon: None },
    ]
}

#[test]
fn sides_know_their_slot_and_the_other_side() {
    assert_eq!(Side::Left.index(), 0);
    assert_eq!(Side::Right.index(), 1);
    assert_eq!(Side::Left.other(), Side::Right);
    assert_eq!(Side::Right.other(), Side::Left);
}

#[test]
fn the_palette_lists_pages_workspaces_and_creation() {
    let items = palette_items("  ", false, &workspaces());
    assert!(items.contains(&PaletteItem::Route(Route::Settings)));
    assert!(items.iter().any(|i| matches!(i, PaletteItem::Workspace { id, .. } if id == "w2")));
    assert_eq!(items.last(), Some(&PaletteItem::CreateWorkspace));
    let launch = palette_items(" LAUNCH ", false, &workspaces());
    assert_eq!(
        launch,
        vec![PaletteItem::Workspace { id: "w2".into(), name: "Acme Launch".into(), icon: None }]
    );
    let only = palette_items("workspace", true, &workspaces());
    assert_eq!(only.len(), 3);
    assert_eq!(palette_items("new", true, &workspaces()), vec![PaletteItem::CreateWorkspace]);
    assert!(palette_items("zzz", false, &workspaces()).is_empty());
}

#[test]
fn new_workspaces_need_a_name_and_a_proper_color() {
    assert_eq!(
        new_workspace(" New Project ", " NP ", "#1a2B3c"),
        Ok(WorkspaceCommand::Create {
            name: "New Project".into(),
            icon: Some("NP".into()),
            color: Some("#1a2B3c".into())
        })
    );
    assert_eq!(
        new_workspace("Solo", "", ""),
        Ok(WorkspaceCommand::Create { name: "Solo".into(), icon: None, color: None })
    );
    let refused = Err("Enter a name, up to four icon characters, and an optional #RRGGBB color.".to_string());
    assert_eq!(new_workspace("   ", "", ""), refused);
    assert_eq!(new_workspace(&"n".repeat(121), "", ""), refused);
    assert!(new_workspace(&"n".repeat(120), "", "").is_ok());
    assert_eq!(new_workspace("Name", "ABCDE", ""), refused);
    assert_eq!(new_workspace("Name", "", "#12345g"), refused);
    assert_eq!(new_workspace("Name", "", "123456"), refused);
    assert_eq!(new_workspace("Name", "", "#é2345"), refused);
}

#[test]
fn open_dialogs_only_let_dismiss_through() {
    assert!(lets_through(None, false));
    assert!(lets_through(Some(Overlay::Search), false));
    assert!(!lets_through(Some(Overlay::AddTask), false));
    assert!(lets_through(Some(Overlay::AddTask), true));
}

#[test]
fn copied_entries_drop_empty_notes() {
    let entry = PaletteEntry {
        id: "page.today".into(),
        label: "Today".into(),
        icon: Some("sun"),
        detail: Some(String::new()),
        shortcut: Some("⌘1".into()),
        positions: vec![],
    };
    let copy = clone_entry(&entry, vec![0, 1]);
    assert_eq!(copy.positions, vec![0, 1]);
    assert_eq!(copy.detail, None);
    assert_eq!(copy.icon, Some("sun"));
    assert_eq!(copy.shortcut.as_deref(), Some("⌘1"));
    let noted = clone_entry(&PaletteEntry { detail: Some("Current".into()), ..entry }, vec![]);
    assert_eq!(noted.detail.as_deref(), Some("Current"));
}
