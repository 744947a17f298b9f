use ainc_mac::native_update::{
    escape_raw, notes_html, notes_page, take_action, NoteEvent, UpdateAction,
};

#[test]
fn markdown_is_formatted_and_raw_html_is_escaped() {
    let html = notes_html(
        "# Changes\n\n- **Fast** updates\n- [Details](https://example.com)\n\n<script>alert(1)</script>",
    );
    assert!(html.contains("<h1>Changes</h1>"));
    assert!(html.contains("<strong>Fast</strong>"));
    assert!(html.contains("<a href=\"https://example.com\">Details</a>"));
    assert!(html.contains("<p>• <strong>Fast</strong> updates</p>"));
    assert!(html.contains("&lt;script&gt;"));
    assert!(!html.contains("<script>"));
}

#[test]
fn list_items_become_bulleted_paragraphs() {
    assert_eq!(
        notes_page("<ul>\n<li>one</li>\n</ul>\n"),
        "<html><body style=\"font: 13px -apple-system; color: -apple-system-label;\">\n<p>• one</p>\n\n</body></html>"
    );
    assert_eq!(
        notes_page("<li><li>x"),
        "<html><body style=\"font: 13px -apple-system; color: -apple-system-label;\"><p>• <p>• x</body></html>"
    );
}

#[test]
fn an_action_is_taken_once() {
    let mut slot = UpdateAction::new();
    assert_eq!(take_action(&mut slot), None);
    slot.report(2, true);
    assert_eq!(take_action(&mut slot), Some((2, true)));
    assert_eq!(take_action(&mut slot), None);
    slot.report(0, false);
    assert_eq!(take_action(&mut slot), None);
}

#[test]
fn raw_html_events_become_text() {
    let events = vec![
        NoteEvent::Html("<div>".into()),
        NoteEvent::Other,
        NoteEvent::InlineHtml("<b>".into()),
        NoteEvent::Text("plain".into()),
    ];
    assert_eq!(
        escape_raw(events),
        vec![
            NoteEvent::Text("<div>".into()),
            NoteEvent::Other,
            NoteEvent::Text("<b>".into()),
            NoteEvent::Text("plain".into()),
        ]
    );
    let html = notes_html("Inline <b>bold</b> stays text.");
    assert!(html.contains("&lt;b&gt;bold&lt;/b&gt;"));
}
