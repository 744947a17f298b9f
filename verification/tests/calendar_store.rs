use ainc_mac::calendar_store::{access_after_request, access_from_status, Access, CalendarSource, Unavailable};

#[test]
fn status_codes_read_as_access() {
    assert_eq!(access_from_status(0), Access::NotAsked);
    assert_eq!(access_from_status(3), Access::Granted);
    assert_eq!(access_from_status(1), Access::Denied);
    assert_eq!(access_from_status(4), Access::Denied);
    assert_eq!(access_after_request(Some(true), Access::NotAsked), Access::Granted);
    assert_eq!(access_after_request(Some(false), Access::Denied), Access::Denied);
    assert_eq!(access_after_request(None, Access::NotAsked), Access::NotAsked);
}

#[test]
fn a_platform_without_a_store_reports_none() {
    let store = Unavailable;
    assert_eq!(store.access(), Access::Denied);
    assert_eq!(store.request(), Access::Denied);
    assert_eq!(store.events(0, 10), Err("This Mac has no calendar store.".to_string()));
}
