use ainc_mac::home::{
    apply_switch, climate_status, glyph, host, members, tile_state, ActionView, ClimateMode,
    HomeClimate, HomeCommand, HomeConnection, HomeModel, HomeSnapshot, HomeSwitch, SwitchKey,
    Tone, DEFAULT_HIGH, DEFAULT_LOW, RANGE_GAP, SETPOINT_MAX, SETPOINT_MIN,
};

fn switch(key: SwitchKey, label: &str, room: &str, on: bool) -> HomeSwitch {
    HomeSwitch { key, label: label.into(), room: room.into(), on, pending: false }
}

/// A connected home: bedroom lamps and the kitchen ceiling on, cooling to 72°.
fn connected() -> HomeSnapshot {
    HomeSnapshot {
        connection: Some(HomeConnection {
            base_url: "https://app.worldwidewebb.co".into(),
            access_token: true,
        }),
        reachable: true,
        error: None,
        switches: vec![
            switch(SwitchKey::All, "All lights", "Everywhere", false),
            switch(SwitchKey::Lamps, "All lamps", "Everywhere", true),
            switch(SwitchKey::BedroomLamps, "Bedroom lamps", "Bedroom", true),
            switch(SwitchKey::LivingRoomLamps, "Living room lamps", "Living room", false),
            switch(SwitchKey::KitchenCeiling, "Kitchen ceiling", "Kitchen", true),
            switch(SwitchKey::UnderCabinet, "Under cabinet", "Kitchen", false),
        ],
        climate: Some(HomeClimate {
            mode: ClimateMode::Cool,
            action: Some("Cooling".into()),
            target: Some(72),
            target_low: None,
            target_high: None,
            pending: false,
        }),
        actions: vec![
            ActionView {
                id: "a2".into(),
                summary: "Bedroom lamps on".into(),
                state: "completed".into(),
                error: None,
                created_at: 1_790_000_000 - 240,
                finished_at: Some(1_790_000_000 - 239),
            },
            ActionView {
                id: "a1".into(),
                summary: "Climate to 72°".into(),
                state: "completed".into(),
                error: None,
                created_at: 1_790_000_000 - 3_900,
                finished_at: Some(1_790_000_000 - 3_899),
            },
        ],
    }
}

fn on(snapshot: &HomeSnapshot) -> Vec<(SwitchKey, bool)> {
    snapshot.switches.iter().map(|s| (s.key, s.on)).collect()
}

#[test]
fn switches_and_their_groups_agree_immediately() {
    let mut home = connected();
    apply_switch(&mut home, SwitchKey::BedroomLamps, false);
    assert_eq!(
        on(&home),
        [
            (SwitchKey::All, false),
            (SwitchKey::Lamps, false),
            (SwitchKey::BedroomLamps, false),
            (SwitchKey::LivingRoomLamps, false),
            (SwitchKey::KitchenCeiling, true),
            (SwitchKey::UnderCabinet, false),
        ]
    );
    apply_switch(&mut home, SwitchKey::All, true);
    assert!(home.switches.iter().all(|s| s.on && s.pending));
    apply_switch(&mut home, SwitchKey::UnderCabinet, false);
    assert_eq!(on(&home)[0], (SwitchKey::All, false), "All needs everything on");
    assert_eq!(on(&home)[1], (SwitchKey::Lamps, true));
    apply_switch(&mut home, SwitchKey::Lamps, false);
    assert_eq!(
        on(&home)[1..4],
        [
            (SwitchKey::Lamps, false),
            (SwitchKey::BedroomLamps, false),
            (SwitchKey::LivingRoomLamps, false)
        ]
    );
}

#[test]
fn group_tiles_count_their_members() {
    let home = connected();
    let all = tile_state(&home, SwitchKey::All);
    assert!(!all.on && all.mixed);
    assert_eq!(all.detail.as_deref(), Some("2 of 4 on"));
    let lamps = tile_state(&home, SwitchKey::Lamps);
    assert!(!lamps.on && lamps.mixed, "one of two lamp groups is on");
    assert_eq!(lamps.detail.as_deref(), Some("1 of 2 on"));
    let bedroom = tile_state(&home, SwitchKey::BedroomLamps);
    assert!(bedroom.on && !bedroom.mixed && bedroom.detail.is_none());
}

#[test]
fn climate_reads_as_a_sentence() {
    let mut climate = connected().climate.unwrap();
    assert_eq!(climate_status(&climate), ("Cooling to 72°".into(), Tone::Info));
    climate.mode = ClimateMode::HeatCool;
    climate.action = Some("Idle".into());
    climate.target_low = Some(68);
    climate.target_high = Some(74);
    assert_eq!(climate_status(&climate).0, "Holding 68–74°");
    climate.mode = ClimateMode::Off;
    assert_eq!(climate_status(&climate).0, "Thermostat off");
    assert_eq!(host("https://app.worldwidewebb.co/"), "app.worldwidewebb.co");
}

#[test]
fn heating_and_missing_setpoints_read_with_defaults() {
    let climate = HomeClimate {
        mode: ClimateMode::Heat,
        action: Some("Heating".into()),
        target: None,
        target_low: None,
        target_high: None,
        pending: false,
    };
    assert_eq!(climate_status(&climate), ("Heating to 72°".into(), Tone::Warning));
    let auto = HomeClimate { mode: ClimateMode::HeatCool, action: None, ..climate };
    assert_eq!(climate_status(&auto), ("Holding 68–74°".into(), Tone::Neutral));
}

#[test]
fn hosts_drop_the_scheme_and_trailing_slashes() {
    assert_eq!(host("app.local"), "app.local");
    assert_eq!(host("http://a.b//"), "a.b");
    assert_eq!(host("http://a://b"), "a");
    assert_eq!(host("https://"), "");
}

#[test]
fn groups_and_glyphs() {
    assert_eq!(members(SwitchKey::All).len(), 4);
    assert_eq!(members(SwitchKey::Lamps), vec![SwitchKey::BedroomLamps, SwitchKey::LivingRoomLamps]);
    assert!(members(SwitchKey::KitchenCeiling).is_empty());
    assert_eq!(glyph(SwitchKey::LivingRoomLamps), "sofa");
    assert_eq!(glyph(SwitchKey::UnderCabinet), "strip");
}

#[test]
fn the_thermostat_stays_in_its_band() {
    let mut climate = connected().climate.unwrap();
    assert_eq!(climate.step_target(10), SETPOINT_MAX);
    assert_eq!(climate.target, Some(77));
    assert!(climate.pending);
    assert_eq!(climate.step_target(-100), SETPOINT_MIN);
    assert_eq!(climate.step_target(2), 69);
    climate.set_mode(ClimateMode::HeatCool);
    assert_eq!((climate.target_low, climate.target_high), (Some(DEFAULT_LOW), Some(DEFAULT_HIGH)));
    assert_eq!(climate.step_range(true, -10), (68, 68 + RANGE_GAP));
    assert_eq!(climate.step_range(false, 5), (68, 70));
    assert_eq!(climate.step_range(false, -5), (SETPOINT_MIN, 70));
    assert_eq!(climate.step_range(true, 20), (SETPOINT_MIN, SETPOINT_MAX));
    climate.set_mode(ClimateMode::Cool);
    assert_eq!(climate.mode, ClimateMode::Cool);
    assert_eq!(climate.target_low, Some(SETPOINT_MIN));
}

#[test]
fn a_reading_asked_for_before_a_change_cannot_undo_it() {
    let mut model = HomeModel::new();
    assert_eq!(model.set_visible(true), Some(0));
    model.reading_arrived(0, Ok(connected()));
    assert!(model.snapshot().is_some());
    let asked = model.refresh();
    assert_eq!(asked, Some(0));
    assert_eq!(model.refresh(), None, "one reading at a time");
    assert_eq!(
        model.switch(SwitchKey::KitchenCeiling, false),
        HomeCommand::Switch { key: SwitchKey::KitchenCeiling, on: false }
    );
    model.reading_arrived(0, Ok(connected()));
    let shown = model.snapshot().as_ref().unwrap();
    assert!(!shown.switches[4].on, "the older reading is ignored");
    assert_eq!(model.command_settled(), Some(2));
    model.reading_arrived(2, Err("offline".into()));
    assert_eq!(model.error().as_deref(), Some("offline"));
    assert_eq!(model.refresh(), Some(2));
    model.reading_arrived(2, Ok(connected()));
    assert!(model.snapshot().as_ref().unwrap().switches[4].on);
    assert!(model.error().is_none());
}

#[test]
fn climate_changes_need_a_thermostat() {
    let mut model = HomeModel::new();
    assert_eq!(model.set_mode(ClimateMode::Heat), None);
    model.refresh();
    model.reading_arrived(0, Ok(connected()));
    assert_eq!(model.step_target(-1), Some(HomeCommand::SetClimateTarget { target: 71 }));
    assert_eq!(model.set_mode(ClimateMode::HeatCool), Some(HomeCommand::SetClimateMode { mode: ClimateMode::HeatCool }));
    assert_eq!(model.step_range(true, 1), Some(HomeCommand::SetClimateRange { low: 68, high: 75 }));
    let climate = model.snapshot().as_ref().unwrap().climate.clone().unwrap();
    assert_eq!((climate.target_low, climate.target_high), (Some(68), Some(75)));
}

#[test]
fn a_press_touches_only_what_it_covers() {
    let mut home = connected();
    apply_switch(&mut home, SwitchKey::KitchenCeiling, false);
    let pending: Vec<bool> = home.switches.iter().map(|s| s.pending).collect();
    assert_eq!(pending, [false, false, false, false, true, false]);
    let labels: Vec<&str> = home.switches.iter().map(|s| s.label.as_str()).collect();
    assert_eq!(labels[4], "Kitchen ceiling");
    assert_eq!(on(&home)[4], (SwitchKey::KitchenCeiling, false));
    assert_eq!(on(&home)[1], (SwitchKey::Lamps, true));
    assert_eq!(on(&home)[0], (SwitchKey::All, false));
}
