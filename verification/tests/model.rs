use ainc_mac::model::{
    needs_newer_app, pages, restore_router, session_choices, SessionChoices, FontChoice, FontSize, LegacyHistory, LegacySession, Route, Router,
};

const ALL: [Route; 10] = [
    Route::Today,
    Route::Tickets,
    Route::Agents,
    Route::Automations,
    Route::Home,
    Route::Calendar,
    Route::Library,
    Route::Apps,
    Route::Assistant,
    Route::Settings,
];

#[test]
fn catalogue_and_history() {
    assert_eq!(pages().len(), 10);
    for route in ALL {
        assert_eq!(route.spec().route, route);
    }
    let mut s = Router::new();
    s.navigate(Route::Tickets);
    s.navigate(Route::Home);
    s.go(false);
    assert_eq!(s.current(), Route::Tickets);
    s.navigate(Route::Library);
    assert!(!s.can_go(true));
    assert_eq!(restore_router(Some(s.clone()), None), s);
}

#[test]
fn sidebar_shortcuts_follow_visual_order() {
    let sidebar: Vec<_> = pages()
        .iter()
        .filter(|page| page.in_sidebar)
        .map(|page| page.route)
        .collect();
    assert_eq!(
        sidebar,
        [
            Route::Today,
            Route::Tickets,
            Route::Calendar,
            Route::Assistant,
            Route::Agents,
            Route::Automations,
            Route::Home,
            Route::Library,
            Route::Apps,
        ]
    );
    for (index, route) in sidebar.into_iter().enumerate() {
        assert_eq!(Route::from_shortcut((index + 1) as u8), Some(route));
    }
    assert_eq!(Route::from_shortcut(0), None);
    assert_eq!(Route::from_shortcut(10), None);
}

fn tabs(names: &[&str]) -> Vec<Option<Route>> {
    names.iter().map(|name| Route::from_key(name)).collect()
}

#[test]
fn legacy_session_and_unknown_route_preserve_preferences() {
    let legacy = LegacySession {
        tabs: tabs(&["today", "evee", "home"]),
        active: Some(1),
        histories: vec![],
    };
    let s = restore_router(None, Some(legacy));
    assert_eq!(s.current(), Route::Assistant);
    // {"sidebar": false, "font": "helvetica_neue", "evee_width": 390}
    let choices = session_choices(&None, Some(false), None, &Some("helvetica_neue".into()), &None);
    assert!(!choices.sidebar_open);
    assert!(choices.evee_open);
    assert_eq!(choices.font, FontChoice::HelveticaNeue);
    assert_eq!(FontChoice::from_key("helvetica_neue"), Some(FontChoice::HelveticaNeue));
    assert_eq!(Route::Assistant.key(), "evee");
    let unknown = restore_router(
        None,
        Some(LegacySession { tabs: tabs(&["future"]), active: None, histories: vec![] }),
    );
    assert_eq!(unknown.current(), Route::Today);
    let unknown_choices = session_choices(&None, Some(false), None, &Some("helvetica_neue".into()), &None);
    assert_eq!(unknown_choices.font, FontChoice::HelveticaNeue);
    assert!(!unknown_choices.sidebar_open);
}

#[test]
fn session_panes_and_fonts_read_leniently() {
    let choices = session_choices(
        &Some(vec![Some(false)]),
        Some(true),
        Some(false),
        &Some("future_font".into()),
        &Some("larger".into()),
    );
    assert_eq!(
        choices,
        SessionChoices {
            sidebar_open: false,
            evee_open: true,
            font: FontChoice::System,
            font_size: FontSize::Larger,
        }
    );
    let none = session_choices(&None, None, None, &None, &None);
    assert!(none.sidebar_open && none.evee_open);
    assert_eq!(none.font_size, FontSize::Default);
}

#[test]
fn font_size_is_a_backward_compatible_ui_preference() {
    assert_eq!(FontSize::from_key("larger"), Some(FontSize::Larger));
    assert_eq!(FontSize::from_key("future_size"), None);
    for (size, _) in FontSize::all() {
        assert_eq!(FontSize::from_key(size.key()), Some(size));
    }
}

#[test]
fn search_and_file_round_trip() {
    assert_eq!(Route::matching(" HOME "), vec![Route::Home]);
    assert!(Route::matching("zzz").is_empty());
    let mut s = Router::new();
    s.navigate(Route::Agents);
    let (current, back, forward) = s.parts();
    assert_eq!(Router::from_parts(current, back, forward), s);
}

#[test]
fn every_route_has_a_key_that_reads_back() {
    for route in ALL {
        assert_eq!(Route::from_key(route.key()), Some(route));
    }
    assert_eq!(Route::from_key("tasks"), Some(Route::Tickets));
    assert_eq!(Route::from_key("assistant"), Some(Route::Assistant));
    assert_eq!(Route::from_key("Today"), None);
}

#[test]
fn going_back_and_forward_undo_each_other() {
    let mut r = Router::new();
    assert!(!r.can_go(false));
    r.go(false);
    assert_eq!(r.current(), Route::Today);
    r.navigate(Route::Home);
    r.navigate(Route::Home);
    r.navigate(Route::Calendar);
    let before = r.clone();
    r.go(false);
    assert_eq!(r.current(), Route::Home);
    assert!(r.can_go(true));
    r.go(true);
    assert_eq!(r, before);
    r.go(false);
    r.go(false);
    assert_eq!(r.current(), Route::Today);
    assert!(!r.can_go(false));
    r.navigate(Route::Apps);
    assert!(!r.can_go(true));
}

#[test]
fn legacy_history_restores_back_and_forward() {
    let history = LegacyHistory {
        entries: Some(tabs(&["today", "tasks", "home", "apps"])),
        cursor: Some(2),
    };
    let legacy = LegacySession {
        tabs: tabs(&["home"]),
        active: Some(0),
        histories: vec![Some(history)],
    };
    let r = restore_router(None, Some(legacy));
    let (current, back, forward) = r.parts();
    assert_eq!(current, Route::Home);
    assert_eq!(back, vec![Route::Today, Route::Tickets]);
    assert_eq!(forward, vec![Route::Apps]);
    let mismatched = LegacySession {
        tabs: tabs(&["settings", "home"]),
        active: Some(7),
        histories: vec![Some(LegacyHistory {
            entries: Some(tabs(&["today", "home"])),
            cursor: Some(1),
        })],
    };
    let r = restore_router(None, Some(mismatched));
    assert_eq!(r.current(), Route::Settings);
    assert!(!r.can_go(false));
    let unknown_entry = LegacySession {
        tabs: tabs(&["home"]),
        active: None,
        histories: vec![Some(LegacyHistory {
            entries: Some(tabs(&["future", "home"])),
            cursor: Some(1),
        })],
    };
    let r = restore_router(None, Some(unknown_entry));
    assert_eq!(r.current(), Route::Home);
    assert!(!r.can_go(false));
}

#[test]
fn pages_describe_themselves() {
    assert_eq!(Route::Home.label(), "Home");
    assert_eq!(Route::Apps.label(), "My apps");
    assert_eq!(Route::Assistant.icon(), "spark");
    assert_eq!(Route::Tickets.empty(), ("No Tickets yet", "Add a Ticket to get started."));
    assert_eq!(Route::Calendar.planned().len(), 3);
    assert_eq!(Route::Calendar.planned()[0].0, "Agenda");
    assert!(Route::Settings.planned().is_empty());
    assert_eq!(
        Route::Home.planned(),
        vec![
            ("Rooms & devices", "Your connected home, organized by room."),
            ("Scenes", "Bring familiar device settings together."),
            ("Activity", "Recent changes from your home."),
        ]
    );
    assert!(Route::Apps.planned().iter().all(|(t, l)| !t.is_empty() && !l.is_empty()));
    assert_eq!(FontChoice::HelveticaNeue.family(), "Helvetica Neue");
    assert_eq!(FontChoice::System.family(), ".AppleSystemUIFont");
}

#[test]
fn only_newer_session_files_are_refused() {
    assert!(!needs_newer_app(None));
    assert!(!needs_newer_app(Some(0)));
    assert!(!needs_newer_app(Some(1)));
    assert!(needs_newer_app(Some(2)));
}
