use ainc_mac::calendar::EventSource;
use ainc_mac::calendar_page::{event_tint, parse_color, Tint};
use ainc_mac::home::connection_request;

#[test]
fn the_connection_form_trims_and_drops_blanks() {
    let r = connection_request("  https://home.example.test ", "  ", " secret ");
    assert_eq!(r.base_url, "https://home.example.test");
    assert_eq!(r.access_client_id, None);
    assert_eq!(r.access_client_secret.as_deref(), Some("secret"));
    assert_eq!(connection_request("", "id", "").base_url, "");
}

#[test]
fn colors_parse_like_from_str_radix() {
    for text in ["#3366FF", "##ff", "+1a", "0", "ffffffff", "#+00ff00"] {
        let expected = u32::from_str_radix(text.trim_start_matches('#'), 16).ok();
        assert_eq!(parse_color(text), expected, "{text}");
    }
    for text in ["", "#", "#+", "1g", "100000000", "-1", "#ff ff"] {
        assert_eq!(parse_color(text), None, "{text}");
    }
}

#[test]
fn events_are_tinted_by_their_source() {
    assert_eq!(event_tint(EventSource::Agentinc, &Some("#ff0000".into())), Tint::Primary);
    assert_eq!(event_tint(EventSource::Macos, &Some("#ff0000".into())), Tint::Blend(0xff0000));
    assert_eq!(event_tint(EventSource::Macos, &Some("red".into())), Tint::Neutral);
    assert_eq!(event_tint(EventSource::Macos, &None), Tint::Neutral);
}
