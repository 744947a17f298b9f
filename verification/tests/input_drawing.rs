use ainc_mac::input::{first_row, line_selection, shown_rows, shown_text};

#[test]
fn fields_take_two_to_five_rows() {
    assert_eq!(shown_rows("one line", false), 1);
    assert_eq!(shown_rows("a\nb\nc", false), 1);
    assert_eq!(shown_rows("", true), 2);
    assert_eq!(shown_rows("a\nb\nc", true), 3);
    assert_eq!(shown_rows("1\n2\n3\n4\n5\n6\n7", true), 5);
}

#[test]
fn the_cursor_row_stays_in_view() {
    let text = "1\n2\n3\n4\n5\n6\n7";
    assert_eq!(first_row(text, 0), 0);
    assert_eq!(first_row(text, 8), 0);
    assert_eq!(first_row(text, 10), 1);
    assert_eq!(first_row(text, text.len()), 2);
}

#[test]
fn a_selection_is_clipped_to_each_line() {
    assert_eq!(line_selection(3..9, 0, 5), Some((3, 5)));
    assert_eq!(line_selection(3..9, 6, 4), Some((0, 3)));
    assert_eq!(line_selection(3..9, 10, 4), None);
    assert_eq!(line_selection(4..4, 0, 10), None);
}

#[test]
fn secret_fields_show_a_star_per_byte() {
    assert_eq!(shown_text("", "Password", true), ("Password".to_string(), true));
    assert_eq!(shown_text("pässword", "Password", true), ("*********".to_string(), false));
    assert_eq!(shown_text("hello", "Name", false), ("hello".to_string(), false));
}
