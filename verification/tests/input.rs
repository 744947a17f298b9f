use ainc_mac::input::{
    line_boundary, next_boundary, offset_from_utf16, offset_to_utf16, previous_boundary,
    word_boundary, Boundary, BoundaryEdit, TextInput,
};

#[test]
fn multiline_boundaries_preserve_other_lines() {
    let text = "one\ncafé\nthree";
    assert_eq!(line_boundary(text, 7, false), 4);
    assert_eq!(line_boundary(text, 7, true), 9);
    assert_eq!(line_boundary(text, 4, false), 4);
    assert_eq!(line_boundary(text, text.len(), true), text.len());
}

#[test]
fn word_navigation_respects_unicode_and_punctuation() {
    let text = "hello, café world";
    assert_eq!(word_boundary(text, text.len(), false), 13);
    assert_eq!(word_boundary(text, 13, false), 7);
    assert_eq!(word_boundary(text, 0, true), 5);
    assert_eq!(word_boundary(text, 5, true), 12);
    assert_eq!(word_boundary("👋 café", 0, true), "👋 café".len());
    assert_eq!(word_boundary("", 0, false), 0);
}

#[test]
fn grapheme_steps_keep_clusters_whole() {
    let text = "ae\u{301}o";
    assert_eq!(next_boundary(text, 0), 1);
    assert_eq!(next_boundary(text, 1), 4);
    assert_eq!(previous_boundary(text, 4), 1);
    assert_eq!(previous_boundary(text, 0), 0);
    assert_eq!(next_boundary(text, text.len()), text.len());
}

#[test]
fn utf16_offsets_count_surrogate_pairs() {
    let text = "a👋é";
    assert_eq!(offset_to_utf16(text, 0), 0);
    assert_eq!(offset_to_utf16(text, 1), 1);
    assert_eq!(offset_to_utf16(text, 5), 3);
    assert_eq!(offset_to_utf16(text, 7), 4);
    assert_eq!(offset_from_utf16(text, 3), 5);
    assert_eq!(offset_from_utf16(text, 4), 7);
    assert_eq!(offset_from_utf16(text, 2), 5, "inside a pair lands after it");
    assert_eq!(offset_from_utf16(text, 99), 7);
}

#[test]
fn typing_selecting_and_undoing() {
    let mut input = TextInput::field("Name", false);
    input.replace_text_in_range(None, "hello world");
    assert_eq!(input.content, "hello world");
    assert_eq!(input.selected_range, 11..11);
    input.select_left();
    input.select_left();
    assert_eq!(input.selected_range, 9..11);
    assert!(input.selection_reversed);
    assert_eq!(input.copy().as_deref(), Some("ld"));
    input.replace_text_in_range(None, "LD");
    assert_eq!(input.content, "hello worLD");
    input.undo();
    assert_eq!(input.content, "hello world");
    assert_eq!(input.selected_range, 9..11);
    assert!(input.selection_reversed);
    input.redo();
    assert_eq!(input.content, "hello worLD");
    assert_eq!(input.selected_range, 11..11);
    input.select_all();
    assert_eq!(input.selected_range, 0..11);
    assert_eq!(input.cut().as_deref(), Some("hello worLD"));
    assert_eq!(input.content, "");
    input.undo();
    assert_eq!(input.content, "hello worLD");
}

#[test]
fn one_line_fields_flatten_breaks_and_composers_unify_them() {
    let mut field = TextInput::field("", false);
    field.paste("a\nb\r\nc");
    assert_eq!(field.content, "a b  c");
    let mut composer = TextInput::composer();
    composer.paste("a\r\nb\rc\r\r\n");
    assert_eq!(composer.content, "a\nb\nc\n\n");
    composer.home();
    assert_eq!(composer.selected_range, 7..7);
    composer.move_to(1);
    composer.end();
    assert_eq!(composer.selected_range, 1..1);
}

#[test]
fn secret_fields_take_ascii_and_hide_their_text() {
    let mut secret = TextInput::field("Token", true);
    secret.paste("café");
    assert_eq!(secret.content, "");
    secret.paste("abc");
    assert_eq!(secret.content, "abc");
    secret.select_all();
    assert_eq!(secret.copy(), None);
    assert!(secret.text_for_range(0..3).is_none());
    assert_eq!(secret.cut(), None);
    assert_eq!(secret.content, "");
}

#[test]
fn fields_stop_at_sixty_four_kibibytes() {
    let mut input = TextInput::field("", false);
    input.paste(&"x".repeat(65_536));
    assert_eq!(input.content.len(), 65_536);
    input.paste("y");
    assert_eq!(input.content.len(), 65_536);
    assert_eq!(input.undo.len(), 1);
}

#[test]
fn the_undo_history_keeps_a_hundred_steps() {
    let mut input = TextInput::field("", false);
    for _ in 0..105 {
        input.paste("a");
    }
    assert_eq!(input.undo.len(), 100);
    for _ in 0..120 {
        input.undo();
    }
    assert_eq!(input.content.len(), 5);
    assert_eq!(input.redo.len(), 100);
}

#[test]
fn backspace_delete_and_word_edits() {
    let mut input = TextInput::field("", false);
    input.set_text("hello, café world");
    input.backspace();
    assert_eq!(input.content, "hello, café worl");
    input.move_to(0);
    input.delete();
    assert_eq!(input.content, "ello, café worl");
    let delete_word = BoundaryEdit { boundary: Boundary::Word, forward: true, select: false, delete: true };
    input.boundary_edit(&delete_word);
    assert_eq!(input.content, ", café worl");
    let select_line = BoundaryEdit { boundary: Boundary::Line, forward: true, select: true, delete: false };
    input.boundary_edit(&select_line);
    assert_eq!(input.selected_range, 0..input.content.len());
    input.left();
    assert_eq!(input.selected_range, 0..0);
    input.right();
    assert_eq!(input.selected_range, 1..1);
}

#[test]
fn the_input_system_reads_and_marks_in_utf16() {
    let mut input = TextInput::composer();
    input.set_text("a👋b");
    let (text, actual) = input.text_for_range(1..3).unwrap();
    assert_eq!(text, "👋");
    assert_eq!(actual, 1..3);
    assert_eq!(input.selected_text_range(), (4..4, false));
    input.replace_and_mark_text_in_range(None, "ka", None);
    assert_eq!(input.content, "a👋bka");
    assert_eq!(input.marked_range, Some(6..8));
    assert_eq!(input.marked_text_range(), Some(4..6));
    input.replace_and_mark_text_in_range(None, "か", Some(0..0));
    assert_eq!(input.content, "a👋bか");
    assert_eq!(input.marked_range, Some(6..9));
    assert_eq!(input.selected_range, 6..6);
    input.unmark_text();
    assert_eq!(input.marked_range, None);
    assert!(input.undo.is_empty(), "composing is no undo step");
}
