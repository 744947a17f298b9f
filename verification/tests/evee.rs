use ainc_mac::evee::{conversation_date, conversation_label, conversation_snippet, send_enabled};
use chrono::TimeZone;

#[test]
fn conversation_dates_keep_the_list_compact() {
    let precise = "2026-09-23 16:06";
    let timestamp = chrono::Local
        .with_ymd_and_hms(2026, 9, 23, 16, 6, 0)
        .single()
        .unwrap()
        .timestamp();
    assert_eq!(conversation_date(precise, timestamp, timestamp + 30), "Today, 16:06");
    assert_eq!(conversation_date(precise, timestamp, timestamp + 100_000), "Yesterday");
    assert_eq!(conversation_date(precise, timestamp, timestamp + 200_000), "09/23/26");
}

#[test]
fn labels_cut_the_stamp_by_bytes() {
    assert_eq!(conversation_label("2026-09-23 16:06", 0), "Today, 16:06");
    assert_eq!(conversation_label("2026-09-23 16:06", 86_399), "Today, 16:06");
    assert_eq!(conversation_label("2026-09-23 16:06", 86_400), "Yesterday");
    assert_eq!(conversation_label("2026-09-23 16:06", 172_800), "09/23/26");
    assert_eq!(conversation_label("short", 5), "Today, ");
    assert_eq!(conversation_label("short", 200_000), "/or");
    // A cut inside a multi-byte character gives nothing for that piece.
    assert_eq!(conversation_label("2026é09-23 16:06", 200_000), "/26");
    assert_eq!(conversation_label("x", -5), "Today, ");
}

#[test]
fn ages_saturate_instead_of_wrapping() {
    // No clock reads a moment that far back, so the stored text is used.
    assert_eq!(conversation_date("2026-09-23 16:06", i64::MIN, i64::MAX), "09/23/26");
    assert_eq!(conversation_date("2026-09-23 16:06", i64::MIN, i64::MIN), "Today, 16:06");
}

#[test]
fn snippets_collapse_whitespace() {
    assert_eq!(conversation_snippet("  \n\t "), "No messages yet");
    assert_eq!(conversation_snippet(""), "No messages yet");
    assert_eq!(conversation_snippet("  Hello\n\n  there\tfriend  "), "Hello there friend");
}

#[test]
fn send_needs_an_account_a_store_and_text() {
    assert!(send_enabled(true, false, false, false, true, " hi "));
    assert!(!send_enabled(false, false, false, false, true, "hi"));
    assert!(!send_enabled(true, true, false, false, true, "hi"));
    assert!(!send_enabled(true, false, true, false, true, "hi"));
    assert!(!send_enabled(true, false, false, true, true, "hi"));
    assert!(!send_enabled(true, false, false, false, false, "hi"));
    assert!(!send_enabled(true, false, false, false, true, "  "));
}
