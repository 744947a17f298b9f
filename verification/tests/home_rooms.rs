use ainc_mac::home::{action_line, room_summary, ActionView, HomeSnapshot, HomeSwitch, SwitchKey, Tone};

fn switch(key: SwitchKey, on: bool) -> HomeSwitch {
    HomeSwitch { key, label: "x".into(), room: "y".into(), on, pending: false }
}

fn home(on: [bool; 4]) -> HomeSnapshot {
    HomeSnapshot {
        connection: None,
        reachable: true,
        error: None,
        switches: vec![
            switch(SwitchKey::All, false),
            switch(SwitchKey::Lamps, false),
            switch(SwitchKey::BedroomLamps, on[0]),
            switch(SwitchKey::LivingRoomLamps, on[1]),
            switch(SwitchKey::KitchenCeiling, on[2]),
            switch(SwitchKey::UnderCabinet, on[3]),
        ],
        climate: None,
        actions: vec![],
    }
}

#[test]
fn room_cards_count_their_lights() {
    let everywhere = vec![SwitchKey::All, SwitchKey::Lamps];
    assert_eq!(room_summary(&home([true, false, true, false]), &everywhere), "2 of 4 on");
    assert_eq!(room_summary(&home([true, true, true, true]), &everywhere), "All on");
    assert_eq!(room_summary(&home([false; 4]), &everywhere), "Off");
    let kitchen = vec![SwitchKey::KitchenCeiling, SwitchKey::UnderCabinet];
    assert_eq!(room_summary(&home([false, false, true, true]), &kitchen), "2 on");
    assert_eq!(room_summary(&home([true, true, false, false]), &kitchen), "Off");
    // A group tile counts as one when all its members are on.
    let lamps = vec![SwitchKey::Lamps, SwitchKey::KitchenCeiling];
    assert_eq!(room_summary(&home([true, true, false, false]), &lamps), "1 on");
}

#[test]
fn history_marks_waiting_and_failed_changes() {
    let action = |state: &str| ActionView {
        id: "a".into(),
        summary: "s".into(),
        state: state.into(),
        error: None,
        created_at: 1_000,
        finished_at: None,
    };
    assert_eq!(action_line(&action("completed"), 1_000 + 180), (None, "3 min ago".to_string()));
    assert_eq!(action_line(&action("failed"), 1_000 + 30), (Some(Tone::Danger), "Failed · just now".to_string()));
    assert_eq!(action_line(&action("queued"), 1_000), (Some(Tone::Info), "Applying…".to_string()));
}
