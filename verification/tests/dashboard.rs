use ainc_mac::dashboard::{greeting, light_tiles, short_label};
use ainc_mac::home::{HomeSwitch, SwitchKey};

#[test]
fn greetings_follow_the_clock() {
    assert_eq!(greeting(7), "Good morning");
    assert_eq!(greeting(13), "Good afternoon");
    assert_eq!(greeting(21), "Good evening");
    assert_eq!(greeting(2), "Hello");
}

#[test]
fn greetings_change_on_the_hour() {
    assert_eq!(greeting(4), "Hello");
    assert_eq!(greeting(5), "Good morning");
    assert_eq!(greeting(11), "Good morning");
    assert_eq!(greeting(12), "Good afternoon");
    assert_eq!(greeting(17), "Good afternoon");
    assert_eq!(greeting(18), "Good evening");
    assert_eq!(greeting(23), "Good evening");
    assert_eq!(greeting(24), "Hello");
}

#[test]
fn the_dashboard_shows_the_lights_the_home_has_in_its_order() {
    let switch = |key| HomeSwitch { key, label: String::new(), room: String::new(), on: false, pending: false };
    let switches = vec![
        switch(SwitchKey::UnderCabinet),
        switch(SwitchKey::BedroomLamps),
        switch(SwitchKey::All),
        switch(SwitchKey::LivingRoomLamps),
    ];
    assert_eq!(
        light_tiles(&switches),
        vec![SwitchKey::All, SwitchKey::LivingRoomLamps, SwitchKey::BedroomLamps, SwitchKey::UnderCabinet]
    );
    assert!(light_tiles(&Vec::new()).is_empty());
    assert_eq!(short_label(SwitchKey::KitchenCeiling), "Ceiling");
}
