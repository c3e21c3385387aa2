use growterm::dump_reader::{parse_dump, parse_dump_rows};
use growterm::grid::Grid;
use growterm::grid_dump::{grid_dump, grid_has_content, DumpScript, DumpStep};
use growterm::types::{Cell, TerminalCommand};

fn print(grid: &mut Grid, s: &str) {
    for c in s.chars() {
        grid.apply(&TerminalCommand::Print(c));
    }
}

#[test]
fn a_blank_screen_has_no_content() {
    let grid = Grid::new(4, 2);
    assert!(!grid_has_content(grid.cells()));
    let mut grid = Grid::new(4, 2);
    print(&mut grid, "x");
    assert!(grid_has_content(grid.cells()));
}

#[test]
fn the_dump_lists_cursor_and_trimmed_rows() {
    let mut grid = Grid::new(5, 3);
    print(&mut grid, "ab");
    grid.apply(&TerminalCommand::CarriageReturn);
    grid.apply(&TerminalCommand::Newline);
    print(&mut grid, "c");
    let dump = grid_dump(grid.cells(), grid.cursor_pos(), "");
    assert_eq!(dump, "cursor:1,1\ngrid:\nab\nc\n\n");
}

#[test]
fn the_preedit_is_drawn_at_the_cursor() {
    let mut grid = Grid::new(4, 1);
    print(&mut grid, "ab");
    let dump = grid_dump(grid.cells(), grid.cursor_pos(), "한글xy");
    // Written over columns 2.., padding the row past its end.
    assert_eq!(dump, "cursor:0,2\ngrid:\nab한글xy\n");
}

#[test]
fn a_dump_reads_back() {
    let (row, col, rows) = parse_dump("cursor:3,14\ngrid:\n$ ls\n\nfoo\n");
    assert_eq!((row, col), (3, 14));
    assert_eq!(rows, vec!["$ ls", "", "foo"]);
    assert_eq!(parse_dump_rows("cursor:0,0\ngrid:\r\na\r\nb"), vec!["a", "b"]);
    assert_eq!(parse_dump("cursor:+7,08,99\ngrid:").0, 7);
    assert_eq!(parse_dump("cursor:+7,08,99\ngrid:").1, 8);
}

#[test]
fn what_is_dumped_is_read_back() {
    let mut grid = Grid::new(6, 3);
    print(&mut grid, "hello");
    grid.apply(&TerminalCommand::CarriageReturn);
    grid.apply(&TerminalCommand::Newline);
    print(&mut grid, "w");
    let cursor = grid.cursor_pos();
    let dump = grid_dump(grid.cells(), cursor, "ㅎ");
    let (row, col, rows) = parse_dump(&dump);
    assert_eq!((row, col), cursor);
    assert_eq!(rows, vec!["hello", "wㅎ", ""]);
}

#[test]
fn blank_cells_of_either_kind_are_trimmed() {
    let mut row = vec![Cell::default(); 4];
    row[0].character = 'a';
    row[2].character = '\0';
    let dump = grid_dump(&[row], (0, 0), "");
    assert_eq!(dump, "cursor:0,0\ngrid:\na\n");
}

#[test]
fn the_test_script_drops_then_types_then_dumps() {
    let mut script = DumpScript::new(Some("/tmp/x y"), true);
    assert_eq!(script.next_step(false), DumpStep::DropFile);
    assert_eq!(script.next_step(false), DumpStep::TypeInput);
    assert_eq!(script.next_step(false), DumpStep::WriteDump);
    assert_eq!(script.next_step(false), DumpStep::WriteDump);
    assert_eq!(script.next_step(true), DumpStep::Done);
    let mut script = DumpScript::new(Some(""), false);
    assert_eq!(script.next_step(false), DumpStep::WriteDump);
}

#[test]
fn rows_read_back_as_written_with_inner_carriage_returns() {
    let rows = ["a\rb", "", "  x"];
    let mut dump = format!("cursor:{},{}\ngrid:\n", 65535, 0);
    for row in rows {
        dump.push_str(row);
        dump.push('\n');
    }
    let (r, c, back) = parse_dump(&dump);
    assert_eq!((r, c), (65535, 0));
    assert_eq!(back, rows.to_vec());
}
