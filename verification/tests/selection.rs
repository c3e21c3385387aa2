use growterm::frame::{frame_selection, frame_view, pointer_row};
use growterm::grid::Grid;
use growterm::types::TerminalCommand;
use growterm::selection::{extract_text, Selection};
use growterm::text::char_width;
use growterm::types::{Cell, CellFlags, Color};

#[test]
fn contains_single_row() {
    let mut sel = Selection::default();
    sel.start = (0, 2);
    sel.end = (0, 5);
    assert!(!sel.contains(0, 1));
    assert!(sel.contains(0, 2));
    assert!(sel.contains(0, 3));
    assert!(sel.contains(0, 5));
    assert!(!sel.contains(0, 6));
    assert!(!sel.contains(1, 3));
}

#[test]
fn contains_multi_row() {
    let mut sel = Selection::default();
    sel.start = (1, 3);
    sel.end = (3, 2);
    assert!(!sel.contains(0, 5));
    assert!(!sel.contains(1, 2));
    assert!(sel.contains(1, 3));
    assert!(sel.contains(1, 10));
    assert!(sel.contains(2, 0));
    assert!(sel.contains(2, 50));
    assert!(sel.contains(3, 0));
    assert!(sel.contains(3, 2));
    assert!(!sel.contains(3, 3));
    assert!(!sel.contains(4, 0));
}

#[test]
fn contains_reversed_selection() {
    let mut sel = Selection::default();
    sel.start = (3, 2);
    sel.end = (1, 3);
    assert!(sel.contains(1, 3));
    assert!(sel.contains(2, 0));
    assert!(sel.contains(3, 2));
    assert!(!sel.contains(3, 3));
}

#[test]
fn contains_empty_selection() {
    let mut sel = Selection::default();
    sel.start = (1, 1);
    sel.end = (1, 1);
    assert!(!sel.contains(1, 1));
}

fn make_cells(lines: &[&str]) -> Vec<Vec<Cell>> {
    lines
        .iter()
        .map(|s| {
            s.chars()
                .map(|c| Cell {
                    character: c,
                    fg: Color::Default,
                    bg: Color::Default,
                    flags: CellFlags::empty(),
                })
                .collect()
        })
        .collect()
}

/// Build cells like the grid does: wide chars get WIDE_CHAR flag + spacer cell
fn make_cells_with_wide(lines: &[&str]) -> Vec<Vec<Cell>> {
    lines
        .iter()
        .map(|s| {
            let mut row = Vec::new();
            for c in s.chars() {
                let w = char_width(c).unwrap_or(1);
                let mut flags = CellFlags::empty();
                flags.wide_char = w == 2;
                row.push(Cell { character: c, fg: Color::Default, bg: Color::Default, flags });
                if w == 2 {
                    row.push(Cell::default()); // spacer
                }
            }
            row
        })
        .collect()
}

#[test]
fn extract_text_single_line() {
    let cells = make_cells(&["Hello World"]);
    let mut sel = Selection::default();
    sel.start = (0, 0);
    sel.end = (0, 4);
    assert_eq!(extract_text(&cells, &sel), "Hello");
}

#[test]
fn extract_text_multi_line() {
    let cells = make_cells(&["Hello  ", "World  "]);
    let mut sel = Selection::default();
    sel.start = (0, 0);
    sel.end = (1, 4);
    assert_eq!(extract_text(&cells, &sel), "Hello\nWorld");
}

#[test]
fn extract_text_trims_trailing_spaces() {
    let cells = make_cells(&["Hi   "]);
    let mut sel = Selection::default();
    sel.start = (0, 0);
    sel.end = (0, 4);
    assert_eq!(extract_text(&cells, &sel), "Hi");
}

#[test]
fn extract_text_empty_selection() {
    let cells = make_cells(&["Hello"]);
    let sel = Selection::default();
    assert_eq!(extract_text(&cells, &sel), "");
}

#[test]
fn extract_text_wide_chars_no_spaces() {
    let cells = make_cells_with_wide(&["안녕하세요"]);
    let mut sel = Selection::default();
    sel.start = (0, 0);
    sel.end = (0, 9);
    assert_eq!(extract_text(&cells, &sel), "안녕하세요");
}

#[test]
fn extract_text_mixed_ascii_and_wide() {
    let cells = make_cells_with_wide(&["Hi한글ok"]);
    let mut sel = Selection::default();
    sel.start = (0, 0);
    sel.end = (0, 7);
    assert_eq!(extract_text(&cells, &sel), "Hi한글ok");
}

#[test]
fn extract_text_partial_line() {
    let cells = make_cells(&["Hello World"]);
    let mut sel = Selection::default();
    sel.start = (0, 6);
    sel.end = (0, 10);
    assert_eq!(extract_text(&cells, &sel), "World");
}

#[test]
fn screen_normalized_basic() {
    let mut sel = Selection::default();
    sel.start = (10, 2);
    sel.end = (12, 5);
    // view_base=10, 24 visible rows
    let result = sel.screen_normalized(10, 24);
    assert_eq!(result, Some(((0, 2), (2, 5))));
}

#[test]
fn screen_normalized_off_screen() {
    let mut sel = Selection::default();
    sel.start = (0, 0);
    sel.end = (5, 3);
    // view starts at row 10
    let result = sel.screen_normalized(10, 24);
    assert_eq!(result, None);
}

#[test]
fn screen_normalized_partial_overlap() {
    let mut sel = Selection::default();
    sel.start = (8, 3);
    sel.end = (12, 5);
    // view_base=10, 24 visible rows -> selection starts before view
    let result = sel.screen_normalized(10, 24);
    assert_eq!(result, Some(((0, 0), (2, 5))));
}

#[test]
fn screen_normalized_adjusts_for_scroll() {
    let mut sel = Selection::default();
    sel.start = (5, 2);
    sel.end = (8, 10);

    // View base at absolute row 5, 10 visible rows
    let result = sel.screen_normalized(5, 10);
    assert_eq!(result, Some(((0, 2), (3, 10))));

    // View base at absolute row 10 → selection off-screen
    let result = sel.screen_normalized(10, 10);
    assert_eq!(result, None);
}

#[test]
fn swapping_the_ends_selects_the_same_cells() {
    let mut a = Selection::default();
    a.start = (4, 7);
    a.end = (2, 1);
    let mut b = Selection::default();
    b.start = (2, 1);
    b.end = (4, 7);
    for row in 0..6u32 {
        for col in 0..10u16 {
            assert_eq!(a.contains(row, col), b.contains(row, col));
        }
    }
    assert_eq!(a.normalized(), ((2, 1), (4, 7)));
}

#[test]
fn begin_update_finish_drive_a_drag() {
    let mut sel = Selection::default();
    sel.begin(3, 4);
    assert!(sel.active);
    assert!(sel.is_empty());
    sel.update(5, 1);
    assert!(!sel.is_empty());
    sel.finish();
    assert!(!sel.active);
    assert_eq!(sel.normalized(), ((3, 4), (5, 1)));
    sel.clear();
    assert!(sel.is_empty());
}

#[test]
fn pointer_rows_count_from_the_top_of_the_view() {
    let mut grid = Grid::new(10, 3);
    for _ in 0..5 {
        grid.apply(&TerminalCommand::Newline);
    }
    // Three lines went to the scrollback; the view shows rows 3..6.
    assert_eq!(grid.scrollback_len(), 3);
    assert_eq!(pointer_row(&grid, 0), 3);
    assert_eq!(pointer_row(&grid, 2), 5);

    grid.scroll_up_view(2);
    assert_eq!(pointer_row(&grid, 0), 1);

    // Dragged upwards from (2, 4) to (0, 1): drawn from (0, 1) to (2, 4).
    let mut sel = Selection::default();
    sel.begin(pointer_row(&grid, 2), 4);
    sel.update(pointer_row(&grid, 0), 1);
    sel.finish();
    let visible = grid.visible_cells();
    let view = frame_view(&grid, &visible, true);
    assert_eq!(frame_selection(&sel, &view), Some(((0, 1), (2, 4))));
}
