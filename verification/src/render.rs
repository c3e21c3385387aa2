//! From cells to draw commands: each cell's colours resolved to RGB, with
//! the cursor, inverse, dim and hidden renditions applied.
use vstd::prelude::*;

use crate::types::{Cell, CellFlags, Color, Rgb};

verus! {

/// One cell to draw.
#[derive(Debug, Clone, Copy, PartialEq, Eq, Structural)]
pub struct RenderCommand {
    pub col: u16,
    pub row: u16,
    pub character: char,
    pub fg: Rgb,
    pub bg: Rgb,
    pub flags: CellFlags,
}

/// The default foreground, a light grey.
pub open spec fn default_fg() -> Rgb {
    Rgb { r: 204, g: 204, b: 204 }
}

/// The default background, black.
pub open spec fn default_bg() -> Rgb {
    Rgb { r: 0, g: 0, b: 0 }
}

pub fn default_fg_rgb() -> (c: Rgb)
    ensures
        c == default_fg(),
{
    Rgb { r: 204, g: 204, b: 204 }
}

pub fn default_bg_rgb() -> (c: Rgb)
    ensures
        c == default_bg(),
{
    Rgb { r: 0, g: 0, b: 0 }
}

/// The sixteen ANSI colours.
pub open spec fn ansi_colors() -> Seq<Rgb> {
    seq![
        Rgb { r: 0, g: 0, b: 0 },
        Rgb { r: 204, g: 0, b: 0 },
        Rgb { r: 0, g: 204, b: 0 },
        Rgb { r: 204, g: 204, b: 0 },
        Rgb { r: 0, g: 0, b: 204 },
        Rgb { r: 204, g: 0, b: 204 },
        Rgb { r: 0, g: 204, b: 204 },
        Rgb { r: 204, g: 204, b: 204 },
        Rgb { r: 128, g: 128, b: 128 },
        Rgb { r: 255, g: 0, b: 0 },
        Rgb { r: 0, g: 255, b: 0 },
        Rgb { r: 255, g: 255, b: 0 },
        Rgb { r: 0, g: 0, b: 255 },
        Rgb { r: 255, g: 0, b: 255 },
        Rgb { r: 0, g: 255, b: 255 },
        Rgb { r: 255, g: 255, b: 255 },
    ]
}

/// A level of the 6×6×6 colour cube: 0, then 95 to 255 in steps of 40.
pub open spec fn cube_level(v: int) -> int {
    if v == 0 {
        0
    } else {
        55 + 40 * v
    }
}

/// The RGB value of a colour, `default` for the default one: the ANSI
/// colours below 16, the colour cube from 16 to 231, and the grey ramp
/// (8 to 238 in steps of 10) above.
pub open spec fn spec_resolve_color(color: Color, default: Rgb) -> Rgb {
    match color {
        Color::Default => default,
        Color::Rgb(rgb) => rgb,
        Color::Indexed(idx) => if idx < 16 {
            ansi_colors()[idx as int]
        } else if idx < 232 {
            let n = idx - 16;
            Rgb {
                r: cube_level((n / 36) % 6) as u8,
                g: cube_level((n / 6) % 6) as u8,
                b: cube_level(n % 6) as u8,
            }
        } else {
            let v = 8 + 10 * (idx - 232);
            Rgb { r: v as u8, g: v as u8, b: v as u8 }
        },
    }
}

fn cube_value(v: u8) -> (r: u8)
    requires
        v < 6,
    ensures
        r == cube_level(v as int),
{
    if v == 0 {
        0
    } else {
        55 + 40 * v
    }
}

pub fn resolve_color(color: Color, default: Rgb) -> (c: Rgb)
    ensures
        c == spec_resolve_color(color, default),
{
    match color {
        Color::Default => default,
        Color::Rgb(rgb) => rgb,
        Color::Indexed(idx) => {
            if idx < 16 {
                let t: [Rgb; 16] = [
                    Rgb { r: 0, g: 0, b: 0 },
                    Rgb { r: 204, g: 0, b: 0 },
                    Rgb { r: 0, g: 204, b: 0 },
                    Rgb { r: 204, g: 204, b: 0 },
                    Rgb { r: 0, g: 0, b: 204 },
                    Rgb { r: 204, g: 0, b: 204 },
                    Rgb { r: 0, g: 204, b: 204 },
                    Rgb { r: 204, g: 204, b: 204 },
                    Rgb { r: 128, g: 128, b: 128 },
                    Rgb { r: 255, g: 0, b: 0 },
                    Rgb { r: 0, g: 255, b: 0 },
                    Rgb { r: 255, g: 255, b: 0 },
                    Rgb { r: 0, g: 0, b: 255 },
                    Rgb { r: 255, g: 0, b: 255 },
                    Rgb { r: 0, g: 255, b: 255 },
                    Rgb { r: 255, g: 255, b: 255 },
                ];
                assert(t@ == ansi_colors());
                t[idx as usize]
            } else if idx < 232 {
                let n = idx - 16;
                Rgb { r: cube_value((n / 36) % 6), g: cube_value((n / 6) % 6), b: cube_value(n % 6) }
            } else {
                let v = 8 + 10 * (idx - 232);
                Rgb { r: v, g: v, b: v }
            }
        },
    }
}

/// The command for `cell` at `row`, `col`: colours resolved, swapped at the
/// cursor and again for inverse, the foreground halved for dim and made the
/// background for hidden.
pub open spec fn cell_command(cell: Cell, row: int, col: int, is_cursor: bool) -> RenderCommand {
    let fg0 = spec_resolve_color(cell.fg, default_fg());
    let bg0 = spec_resolve_color(cell.bg, default_bg());
    let (fg1, bg1) = if is_cursor {
        (bg0, fg0)
    } else {
        (fg0, bg0)
    };
    let (fg2, bg2) = if cell.flags.inverse {
        (bg1, fg1)
    } else {
        (fg1, bg1)
    };
    let fg3 = if cell.flags.dim {
        Rgb { r: fg2.r / 2, g: fg2.g / 2, b: fg2.b / 2 }
    } else {
        fg2
    };
    let fg4 = if cell.flags.hidden {
        bg2
    } else {
        fg3
    };
    RenderCommand {
        col: col as u16,
        row: row as u16,
        character: cell.character,
        fg: fg4,
        bg: bg2,
        flags: cell.flags,
    }
}

/// The commands of `line` (row `row`) from column `col` on; the cell after
/// a wide character is its spacer and draws nothing.
pub open spec fn row_commands(line: Seq<Cell>, row: int, col: int, cursor: Option<(u16, u16)>) -> Seq<
    RenderCommand,
>
    decreases line.len() + 1 - col,
{
    if col < 0 || col >= line.len() {
        seq![]
    } else {
        let cell = line[col];
        let is_cursor = cursor == Some((row as u16, col as u16));
        let next = if cell.flags.wide_char {
            col + 2
        } else {
            col + 1
        };
        seq![cell_command(cell, row, col, is_cursor)] + row_commands(line, row, next, cursor)
    }
}

/// The commands of the rows `row..` of `cells`, row by row.
pub open spec fn grid_commands(cells: Seq<Vec<Cell>>, row: int, cursor: Option<(u16, u16)>) -> Seq<
    RenderCommand,
>
    decreases cells.len() - row,
{
    if row < 0 || row >= cells.len() {
        seq![]
    } else {
        row_commands(cells[row]@, row, 0, cursor) + grid_commands(cells, row + 1, cursor)
    }
}

fn command_for(cell: &Cell, row: usize, col: usize, cursor: Option<(u16, u16)>) -> (c: RenderCommand)
    ensures
        c == cell_command(*cell, row as int, col as int, cursor == Some((row as u16, col as u16))),
{
    let mut fg = resolve_color(cell.fg, default_fg_rgb());
    let mut bg = resolve_color(cell.bg, default_bg_rgb());
    let r16 = row as u16;
    let c16 = col as u16;
    let is_cursor = match cursor {
        Some((cr, cc)) => cr == r16 && cc == c16,
        None => false,
    };
    if is_cursor {
        let t = fg;
        fg = bg;
        bg = t;
    }
    if cell.flags.inverse {
        let t = fg;
        fg = bg;
        bg = t;
    }
    if cell.flags.dim {
        fg = Rgb { r: fg.r / 2, g: fg.g / 2, b: fg.b / 2 };
    }
    if cell.flags.hidden {
        fg = bg;
    }
    RenderCommand { col: c16, row: r16, character: cell.character, fg, bg, flags: cell.flags }
}

/// The draw commands of the screen `cells` with the cursor at `cursor_pos`
/// (none when hidden).
pub fn generate(cells: &[Vec<Cell>], cursor_pos: Option<(u16, u16)>) -> (out: Vec<RenderCommand>)
    ensures
        out@ == grid_commands(cells@, 0, cursor_pos),
{
    let mut out: Vec<RenderCommand> = Vec::new();
    let mut row: usize = 0;
    while row < cells.len()
        invariant
            row <= cells@.len(),
            out@ + grid_commands(cells@, row as int, cursor_pos) == grid_commands(cells@, 0, cursor_pos),
        decreases cells.len() - row,
    {
        let line = &cells[row];
        let ghost before = out@;
        let mut col: usize = 0;
        while col < line.len()
            invariant
                row < cells@.len(),
                *line == cells@[row as int],
                before + row_commands(line@, row as int, 0, cursor_pos) == out@ + row_commands(
                    line@,
                    row as int,
                    col as int,
                    cursor_pos,
                ),
            decreases line.len() - col,
        {
            let cmd = command_for(&line[col], row, col, cursor_pos);
            let ghost prev = out@;
            out.push(cmd);
            let wide = line[col].flags.wide_char;
            let ghost next: int = if wide {
                col + 2
            } else {
                col + 1
            };
            proof {
                assert(row_commands(line@, row as int, col as int, cursor_pos) == seq![cmd] + row_commands(
                    line@,
                    row as int,
                    next as int,
                    cursor_pos,
                ));
                assert(prev + (seq![cmd] + row_commands(line@, row as int, next, cursor_pos))
                    =~= out@ + row_commands(line@, row as int, next, cursor_pos));
            }
            if wide && line.len() - col < 2 {
                assert(row_commands(line@, row as int, next, cursor_pos) =~= Seq::<
                    RenderCommand,
                >::empty());
                assert(row_commands(line@, row as int, line.len() as int, cursor_pos) =~= Seq::<
                    RenderCommand,
                >::empty());
                col = line.len();
            } else if wide {
                col = col + 2;
            } else {
                col = col + 1;
            }
        }
        proof {
            assert(out@ + row_commands(line@, row as int, col as int, cursor_pos) =~= out@);
            assert(grid_commands(cells@, row as int, cursor_pos) == row_commands(
                line@,
                row as int,
                0,
                cursor_pos,
            ) + grid_commands(cells@, row + 1, cursor_pos));
            assert(before + (row_commands(line@, row as int, 0, cursor_pos) + grid_commands(
                cells@,
                row + 1,
                cursor_pos,
            )) =~= out@ + grid_commands(cells@, row + 1, cursor_pos));
        }
        row = row + 1;
    }
    assert(out@ + grid_commands(cells@, row as int, cursor_pos) =~= out@);
    out
}

} // verus!
