//! What each piece of parsed terminal output asks of the grid: printable
//! characters, C0 controls and CSI sequences (cursor motion, erasing and SGR
//! rendition), turned into `TerminalCommand`s.
//!
//! The byte-level state machine is `vte`'s; its callbacks hand their
//! arguments to these functions as plain values. A CSI sequence's parameters
//! come as a list of parameters, each with its sub-parameters (never empty).
use vstd::prelude::*;

use crate::types::{Color, Rgb, TerminalCommand};

verus! {

/// Every parameter has at least one value.
pub open spec fn params_wf(params: Seq<Vec<u16>>) -> bool {
    forall|i: int| 0 <= i < params.len() ==> #[trigger] params[i]@.len() > 0
}

/// The first value of parameter `i`, zero where there is none.
pub open spec fn param_or_zero(params: Seq<Vec<u16>>, i: int) -> u16 {
    if 0 <= i < params.len() {
        params[i]@[0]
    } else {
        0
    }
}

/// `n`, or one when `n` is zero (the default of a count).
pub open spec fn at_least_one(n: u16) -> u16 {
    if n == 0 {
        1
    } else {
        n
    }
}

/// The extended colour that starts at parameter `j` (after a 38 or 48):
/// `5;N` for palette entry N, `2;R;G;B` for a 24-bit colour, each value cut
/// to its low byte. Also the index of the first parameter after what was
/// read; reading stops at the first parameter that does not fit.
pub open spec fn extended_color(params: Seq<Vec<u16>>, j: int) -> (Option<Color>, int) {
    let n = params.len() as int;
    if j >= n {
        (None, j)
    } else if params[j]@[0] == 5 {
        if j + 1 >= n {
            (None, j + 1)
        } else {
            (Some(Color::Indexed(params[j + 1]@[0] as u8)), j + 2)
        }
    } else if params[j]@[0] == 2 {
        if j + 3 >= n {
            (None, n)
        } else {
            (
                Some(
                    Color::Rgb(
                        Rgb {
                            r: params[j + 1]@[0] as u8,
                            g: params[j + 2]@[0] as u8,
                            b: params[j + 3]@[0] as u8,
                        },
                    ),
                ),
                j + 4,
            )
        }
    } else {
        (None, j + 1)
    }
}

/// The command of one SGR parameter that takes no further parameters; none
/// for an unknown one.
pub open spec fn sgr_simple(p: u16) -> Seq<TerminalCommand> {
    if p == 0 {
        seq![TerminalCommand::ResetAttributes]
    } else if p == 1 {
        seq![TerminalCommand::SetBold]
    } else if p == 2 {
        seq![TerminalCommand::SetDim]
    } else if p == 3 {
        seq![TerminalCommand::SetItalic]
    } else if p == 4 {
        seq![TerminalCommand::SetUnderline]
    } else if p == 7 {
        seq![TerminalCommand::SetInverse]
    } else if p == 8 {
        seq![TerminalCommand::SetHidden]
    } else if p == 9 {
        seq![TerminalCommand::SetStrikethrough]
    } else if 30 <= p <= 37 {
        seq![TerminalCommand::SetForeground(Color::Indexed((p - 30) as u8))]
    } else if p == 39 {
        seq![TerminalCommand::SetForeground(Color::Default)]
    } else if 40 <= p <= 47 {
        seq![TerminalCommand::SetBackground(Color::Indexed((p - 40) as u8))]
    } else if p == 49 {
        seq![TerminalCommand::SetBackground(Color::Default)]
    } else if 90 <= p <= 97 {
        seq![TerminalCommand::SetForeground(Color::Indexed((p - 90 + 8) as u8))]
    } else if 100 <= p <= 107 {
        seq![TerminalCommand::SetBackground(Color::Indexed((p - 100 + 8) as u8))]
    } else {
        seq![]
    }
}

/// The commands of the SGR parameters from index `i` on.
pub open spec fn sgr_from(params: Seq<Vec<u16>>, i: int) -> Seq<TerminalCommand>
    decreases params.len() - i,
{
    if i < 0 || i >= params.len() {
        seq![]
    } else {
        let p = params[i]@[0];
        if p == 38 || p == 48 {
            let (c, next) = extended_color(params, i + 1);
            let head = match c {
                Some(col) => if p == 38 {
                    seq![TerminalCommand::SetForeground(col)]
                } else {
                    seq![TerminalCommand::SetBackground(col)]
                },
                None => seq![],
            };
            head + sgr_from(params, next)
        } else {
            sgr_simple(p) + sgr_from(params, i + 1)
        }
    }
}

/// The commands of a CSI sequence with final character `action`. Cursor
/// motion counts default to one, positions are one-based and default to one,
/// erase modes default to zero; unknown sequences give nothing.
pub open spec fn spec_csi_commands(params: Seq<Vec<u16>>, action: char) -> Seq<TerminalCommand> {
    let first = param_or_zero(params, 0);
    if action == 'A' {
        seq![TerminalCommand::CursorUp(at_least_one(first))]
    } else if action == 'B' {
        seq![TerminalCommand::CursorDown(at_least_one(first))]
    } else if action == 'C' {
        seq![TerminalCommand::CursorForward(at_least_one(first))]
    } else if action == 'D' {
        seq![TerminalCommand::CursorBack(at_least_one(first))]
    } else if action == 'H' || action == 'f' {
        seq![
            TerminalCommand::CursorPosition {
                row: at_least_one(first),
                col: at_least_one(param_or_zero(params, 1)),
            },
        ]
    } else if action == 'J' {
        seq![TerminalCommand::EraseInDisplay(first)]
    } else if action == 'K' {
        seq![TerminalCommand::EraseInLine(first)]
    } else if action == 'm' {
        sgr_from(params, 0)
    } else {
        seq![]
    }
}

/// The command of a C0 control byte: BEL, BS, HT, LF and CR; none for the
/// others.
pub open spec fn spec_execute_command(byte: u8) -> Option<TerminalCommand> {
    if byte == 0x07 {
        Some(TerminalCommand::Bell)
    } else if byte == 0x08 {
        Some(TerminalCommand::Backspace)
    } else if byte == 0x09 {
        Some(TerminalCommand::Tab)
    } else if byte == 0x0A {
        Some(TerminalCommand::Newline)
    } else if byte == 0x0D {
        Some(TerminalCommand::CarriageReturn)
    } else {
        None
    }
}

/// A printable character is printed.
pub fn print_command(c: char) -> (cmd: TerminalCommand)
    ensures
        cmd == TerminalCommand::Print(c),
{
    TerminalCommand::Print(c)
}

pub fn execute_command(byte: u8) -> (cmd: Option<TerminalCommand>)
    ensures
        cmd == spec_execute_command(byte),
{
    match byte {
        0x07 => Some(TerminalCommand::Bell),
        0x08 => Some(TerminalCommand::Backspace),
        0x09 => Some(TerminalCommand::Tab),
        0x0A => Some(TerminalCommand::Newline),
        0x0D => Some(TerminalCommand::CarriageReturn),
        _ => None,
    }
}

fn first_of(params: &Vec<Vec<u16>>, i: usize) -> (v: u16)
    requires
        params_wf(params@),
    ensures
        v == param_or_zero(params@, i as int),
{
    if i < params.len() {
        params[i][0]
    } else {
        0
    }
}

/// The low byte of a parameter value.
fn low_byte(v: u16) -> (b: u8)
    ensures
        b == v as u8,
{
    v as u8
}

fn parse_extended_color(params: &Vec<Vec<u16>>, j: usize) -> (r: (Option<Color>, usize))
    requires
        params_wf(params@),
        j <= params.len(),
    ensures
        r.0 == extended_color(params@, j as int).0,
        r.1 as int == extended_color(params@, j as int).1,
{
    let n = params.len();
    if j >= n {
        (None, j)
    } else if params[j][0] == 5 {
        if j + 1 >= n {
            (None, j + 1)
        } else {
            (Some(Color::Indexed(low_byte(params[j + 1][0]))), j + 2)
        }
    } else if params[j][0] == 2 {
        if n - j <= 3 {
            (None, n)
        } else {
            let r = low_byte(params[j + 1][0]);
            let g = low_byte(params[j + 2][0]);
            let b = low_byte(params[j + 3][0]);
            (Some(Color::Rgb(Rgb { r, g, b })), j + 4)
        }
    } else {
        (None, j + 1)
    }
}

fn push_simple_sgr(out: &mut Vec<TerminalCommand>, p: u16)
    ensures
        final(out)@ == old(out)@ + sgr_simple(p),
{
    let cmd = match p {
        0 => Some(TerminalCommand::ResetAttributes),
        1 => Some(TerminalCommand::SetBold),
        2 => Some(TerminalCommand::SetDim),
        3 => Some(TerminalCommand::SetItalic),
        4 => Some(TerminalCommand::SetUnderline),
        7 => Some(TerminalCommand::SetInverse),
        8 => Some(TerminalCommand::SetHidden),
        9 => Some(TerminalCommand::SetStrikethrough),
        30..=37 => Some(TerminalCommand::SetForeground(Color::Indexed((p - 30) as u8))),
        39 => Some(TerminalCommand::SetForeground(Color::Default)),
        40..=47 => Some(TerminalCommand::SetBackground(Color::Indexed((p - 40) as u8))),
        49 => Some(TerminalCommand::SetBackground(Color::Default)),
        90..=97 => Some(TerminalCommand::SetForeground(Color::Indexed((p - 90 + 8) as u8))),
        100..=107 => Some(TerminalCommand::SetBackground(Color::Indexed((p - 100 + 8) as u8))),
        _ => None,
    };
    match cmd {
        Some(c) => {
            out.push(c);
            assert(old(out)@.push(c) =~= old(out)@ + sgr_simple(p));
        },
        None => {
            assert(old(out)@ =~= old(out)@ + sgr_simple(p));
        },
    }
}

/// The commands of an SGR sequence (`CSI ... m`).
pub fn sgr_commands(params: &Vec<Vec<u16>>) -> (out: Vec<TerminalCommand>)
    requires
        params_wf(params@),
    ensures
        out@ == sgr_from(params@, 0),
{
    let mut out: Vec<TerminalCommand> = Vec::new();
    let mut i: usize = 0;
    while i < params.len()
        invariant
            params_wf(params@),
            i <= params.len(),
            out@ + sgr_from(params@, i as int) == sgr_from(params@, 0),
        decreases params.len() - i,
    {
        let p = params[i][0];
        let ghost before = out@;
        if p == 38 || p == 48 {
            let (c, next) = parse_extended_color(params, i + 1);
            match c {
                Some(col) => {
                    if p == 38 {
                        out.push(TerminalCommand::SetForeground(col));
                    } else {
                        out.push(TerminalCommand::SetBackground(col));
                    }
                },
                None => {},
            }
            proof {
                let head = match c {
                    Some(col) => if p == 38 {
                        seq![TerminalCommand::SetForeground(col)]
                    } else {
                        seq![TerminalCommand::SetBackground(col)]
                    },
                    None => seq![],
                };
                assert(out@ =~= before + head);
                assert(before + sgr_from(params@, i as int) == before + (head + sgr_from(
                    params@,
                    next as int,
                )));
                assert(before + (head + sgr_from(params@, next as int)) =~= out@ + sgr_from(
                    params@,
                    next as int,
                ));
            }
            i = next;
        } else {
            push_simple_sgr(&mut out, p);
            proof {
                assert(before + sgr_from(params@, i as int) == before + (sgr_simple(p) + sgr_from(
                    params@,
                    i + 1,
                )));
                assert(before + (sgr_simple(p) + sgr_from(params@, i + 1)) =~= out@ + sgr_from(
                    params@,
                    i + 1,
                ));
            }
            i = i + 1;
        }
    }
    assert(out@ + sgr_from(params@, i as int) =~= out@);
    out
}

/// The commands of a CSI sequence with final character `action`.
pub fn csi_commands(params: &Vec<Vec<u16>>, action: char) -> (out: Vec<TerminalCommand>)
    requires
        params_wf(params@),
    ensures
        out@ == spec_csi_commands(params@, action),
{
    let first = first_of(params, 0);
    let count = if first == 0 {
        1
    } else {
        first
    };
    match action {
        'A' => vec![TerminalCommand::CursorUp(count)],
        'B' => vec![TerminalCommand::CursorDown(count)],
        'C' => vec![TerminalCommand::CursorForward(count)],
        'D' => vec![TerminalCommand::CursorBack(count)],
        'H' | 'f' => {
            let second = first_of(params, 1);
            let col = if second == 0 {
                1
            } else {
                second
            };
            vec![TerminalCommand::CursorPosition { row: count, col }]
        },
        'J' => vec![TerminalCommand::EraseInDisplay(first)],
        'K' => vec![TerminalCommand::EraseInLine(first)],
        'm' => sgr_commands(params),
        _ => Vec::new(),
    }
}

} // verus!
