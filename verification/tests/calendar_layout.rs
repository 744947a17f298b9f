use ainc_mac::calendar_page::{agenda_label, block_span, grid_bounds, month_cell, MonthCell};
use ainc_mac::dates::Date;

#[test]
fn blocks_stay_on_the_grid_and_last_fifteen_minutes() {
    let (start, end) = grid_bounds(0);
    assert_eq!((start, end), (6 * 3600, 24 * 3600));
    assert_eq!(block_span(8 * 3600, 9 * 3600, start, end), Some((8 * 3600, 9 * 3600)));
    // Too short: drawn for fifteen minutes.
    assert_eq!(block_span(8 * 3600, 8 * 3600, start, end), Some((8 * 3600, 8 * 3600 + 900)));
    // Starting before the grid: cut at its top.
    assert_eq!(block_span(3600, 7 * 3600, start, end), Some((6 * 3600, 7 * 3600)));
    // Entirely before or after the grid: not drawn.
    assert_eq!(block_span(0, 3600, start, end), None);
    assert_eq!(block_span(25 * 3600, 26 * 3600, start, end), None);
}

#[test]
fn month_cells_show_what_fits() {
    assert_eq!(month_cell(2, 3, false), MonthCell::Chips { shown: 2, more: 0 });
    assert_eq!(month_cell(5, 3, false), MonthCell::Chips { shown: 2, more: 3 });
    assert_eq!(month_cell(5, 1, false), MonthCell::Dots);
    assert_eq!(month_cell(1, 1, false), MonthCell::Chips { shown: 1, more: 0 });
    assert_eq!(month_cell(1, 4, true), MonthCell::Dots);
}

#[test]
fn agenda_days_name_today_and_tomorrow() {
    let today = Date { year: 2026, month: 9, day: 26 };
    assert_eq!(agenda_label(today, today), "Sat · Today");
    assert_eq!(agenda_label(Date { year: 2026, month: 9, day: 27 }, today), "Sun · Tomorrow");
    assert_eq!(agenda_label(Date { year: 2026, month: 10, day: 2 }, today), "Fri · Oct");
}
