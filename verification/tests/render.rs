use growterm::render::{default_bg_rgb, default_fg_rgb, generate, resolve_color};
use growterm::types::{Cell, CellFlags, Color, Rgb};

fn flags(f: impl Fn(&mut CellFlags)) -> CellFlags {
    let mut c = CellFlags::empty();
    f(&mut c);
    c
}

#[test]
fn empty_grid_produces_no_commands() {
    let cells: Vec<Vec<Cell>> = vec![];
    let cmds = generate(&cells, None);
    assert!(cmds.is_empty());
}

#[test]
fn single_default_cell() {
    let cells = vec![vec![Cell::default()]];
    let cmds = generate(&cells, None);
    assert_eq!(cmds.len(), 1);
    assert_eq!(cmds[0].col, 0);
    assert_eq!(cmds[0].row, 0);
    assert_eq!(cmds[0].character, ' ');
    assert_eq!(cmds[0].fg, default_fg_rgb());
    assert_eq!(cmds[0].bg, default_bg_rgb());
}

#[test]
fn rgb_color_passthrough() {
    let cell = Cell {
        character: 'X',
        fg: Color::Rgb(Rgb::new(100, 150, 200)),
        bg: Color::Rgb(Rgb::new(10, 20, 30)),
        flags: CellFlags::empty(),
    };
    let cmds = generate(&vec![vec![cell]], None);
    assert_eq!(cmds[0].fg, Rgb::new(100, 150, 200));
    assert_eq!(cmds[0].bg, Rgb::new(10, 20, 30));
}

#[test]
fn indexed_color_ansi() {
    let cell = Cell { character: 'A', fg: Color::Indexed(1), bg: Color::Indexed(4), flags: CellFlags::empty() };
    let cmds = generate(&vec![vec![cell]], None);
    assert_eq!(cmds[0].fg, Rgb::new(204, 0, 0));
    assert_eq!(cmds[0].bg, Rgb::new(0, 0, 204));
}

#[test]
fn indexed_color_216_cube() {
    // Index 196 = 16 + 180 = r=5,g=0,b=0 → (255,0,0)
    let cell = Cell { character: 'A', fg: Color::Indexed(196), bg: Color::Default, flags: CellFlags::empty() };
    let cmds = generate(&vec![vec![cell]], None);
    assert_eq!(cmds[0].fg, Rgb::new(255, 0, 0));
}

#[test]
fn indexed_color_grayscale() {
    // Index 232 → 8, Index 255 → 238
    let cell = Cell { character: 'A', fg: Color::Indexed(232), bg: Color::Indexed(255), flags: CellFlags::empty() };
    let cmds = generate(&vec![vec![cell]], None);
    assert_eq!(cmds[0].fg, Rgb::new(8, 8, 8));
    assert_eq!(cmds[0].bg, Rgb::new(238, 238, 238));
}

#[test]
fn inverse_swaps_fg_bg() {
    let cell = Cell {
        character: 'I',
        fg: Color::Rgb(Rgb::new(255, 255, 255)),
        bg: Color::Rgb(Rgb::new(0, 0, 0)),
        flags: flags(|f| f.inverse = true),
    };
    let cmds = generate(&vec![vec![cell]], None);
    assert_eq!(cmds[0].fg, Rgb::new(0, 0, 0));
    assert_eq!(cmds[0].bg, Rgb::new(255, 255, 255));
}

#[test]
fn dim_halves_fg() {
    let cell = Cell {
        character: 'D',
        fg: Color::Rgb(Rgb::new(200, 100, 50)),
        bg: Color::Default,
        flags: flags(|f| f.dim = true),
    };
    let cmds = generate(&vec![vec![cell]], None);
    assert_eq!(cmds[0].fg, Rgb::new(100, 50, 25));
}

#[test]
fn hidden_sets_fg_to_bg() {
    let cell = Cell {
        character: 'H',
        fg: Color::Rgb(Rgb::new(255, 255, 255)),
        bg: Color::Rgb(Rgb::new(0, 0, 0)),
        flags: flags(|f| f.hidden = true),
    };
    let cmds = generate(&vec![vec![cell]], None);
    assert_eq!(cmds[0].fg, cmds[0].bg);
}

#[test]
fn wide_char_with_spacer_skips_spacer() {
    let wide = flags(|f| f.wide_char = true);
    let cells = vec![vec![
        Cell { character: '한', fg: Color::Default, bg: Color::Default, flags: wide },
        Cell::default(),
        Cell { character: '글', fg: Color::Default, bg: Color::Default, flags: wide },
        Cell::default(),
    ]];
    let cmds = generate(&cells, None);
    assert_eq!(cmds.len(), 2); // spacers skipped
    assert_eq!(cmds[0].col, 0);
    assert_eq!(cmds[0].character, '한');
    assert_eq!(cmds[1].col, 2);
    assert_eq!(cmds[1].character, '글');
}

#[test]
fn multiple_rows() {
    let cells = vec![
        vec![Cell { character: 'A', ..Cell::default() }],
        vec![Cell { character: 'B', ..Cell::default() }],
        vec![Cell { character: 'C', ..Cell::default() }],
    ];
    let cmds = generate(&cells, None);
    assert_eq!(cmds.len(), 3);
    assert_eq!(cmds[0].row, 0);
    assert_eq!(cmds[1].row, 1);
    assert_eq!(cmds[2].row, 2);
}

#[test]
fn cursor_pos_swaps_fg_bg() {
    let cell = Cell { character: 'A', fg: Color::Default, bg: Color::Default, flags: CellFlags::empty() };
    let cells = vec![vec![cell]];
    let cmds = generate(&cells, Some((0, 0)));
    assert_eq!(cmds[0].fg, default_bg_rgb());
    assert_eq!(cmds[0].bg, default_fg_rgb());
}

#[test]
fn cursor_pos_only_affects_cursor_cell() {
    let cells = vec![vec![
        Cell { character: 'A', ..Cell::default() },
        Cell { character: 'B', ..Cell::default() },
    ]];
    let cmds = generate(&cells, Some((0, 0)));
    assert_eq!(cmds[0].fg, default_bg_rgb());
    assert_eq!(cmds[0].bg, default_fg_rgb());
    assert_eq!(cmds[1].fg, default_fg_rgb());
    assert_eq!(cmds[1].bg, default_bg_rgb());
}

#[test]
fn flags_are_preserved() {
    let cell = Cell {
        character: 'B',
        fg: Color::Default,
        bg: Color::Default,
        flags: flags(|f| {
            f.bold = true;
            f.underline = true;
        }),
    };
    let cmds = generate(&vec![vec![cell]], None);
    assert!(cmds[0].flags.bold);
    assert!(cmds[0].flags.underline);
}

#[test]
fn the_colour_cube_and_grey_ramp() {
    let d = Rgb::new(1, 2, 3);
    assert_eq!(resolve_color(Color::Default, d), d);
    assert_eq!(resolve_color(Color::Indexed(16), d), Rgb::new(0, 0, 0));
    assert_eq!(resolve_color(Color::Indexed(17), d), Rgb::new(0, 0, 95));
    assert_eq!(resolve_color(Color::Indexed(231), d), Rgb::new(255, 255, 255));
    assert_eq!(resolve_color(Color::Indexed(15), d), Rgb::new(255, 255, 255));
    assert_eq!(resolve_color(Color::Indexed(244), d), Rgb::new(128, 128, 128));
}

#[test]
fn a_wide_character_at_the_end_of_a_row_is_drawn() {
    let wide = flags(|f| f.wide_char = true);
    let cells = vec![vec![Cell { character: 'a', ..Cell::default() }, Cell { character: '한', flags: wide, ..Cell::default() }]];
    let cmds = generate(&cells, Some((0, 1)));
    assert_eq!(cmds.len(), 2);
    assert_eq!(cmds[1].character, '한');
    assert_eq!(cmds[1].fg, default_bg_rgb());
}
