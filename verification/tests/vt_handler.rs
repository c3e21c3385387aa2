use growterm::types::{Color, Rgb, TerminalCommand};
use growterm::vt_handler::{csi_commands, execute_command, print_command, sgr_commands};

fn p(vals: &[u16]) -> Vec<Vec<u16>> {
    vals.iter().map(|v| vec![*v]).collect()
}

#[test]
fn cursor_motion_counts_default_to_one() {
    assert_eq!(csi_commands(&p(&[3]), 'A'), vec![TerminalCommand::CursorUp(3)]);
    assert_eq!(csi_commands(&p(&[]), 'A'), vec![TerminalCommand::CursorUp(1)]);
    assert_eq!(csi_commands(&p(&[0]), 'B'), vec![TerminalCommand::CursorDown(1)]);
    assert_eq!(csi_commands(&p(&[2]), 'C'), vec![TerminalCommand::CursorForward(2)]);
    assert_eq!(csi_commands(&p(&[4]), 'D'), vec![TerminalCommand::CursorBack(4)]);
}

#[test]
fn cursor_position_is_one_based() {
    assert_eq!(csi_commands(&p(&[5, 10]), 'H'), vec![TerminalCommand::CursorPosition { row: 5, col: 10 }]);
    assert_eq!(csi_commands(&p(&[]), 'H'), vec![TerminalCommand::CursorPosition { row: 1, col: 1 }]);
    assert_eq!(csi_commands(&p(&[3]), 'f'), vec![TerminalCommand::CursorPosition { row: 3, col: 1 }]);
}

#[test]
fn erase_modes_default_to_zero() {
    assert_eq!(csi_commands(&p(&[]), 'J'), vec![TerminalCommand::EraseInDisplay(0)]);
    assert_eq!(csi_commands(&p(&[2]), 'J'), vec![TerminalCommand::EraseInDisplay(2)]);
    assert_eq!(csi_commands(&p(&[1]), 'K'), vec![TerminalCommand::EraseInLine(1)]);
    assert!(csi_commands(&p(&[1]), 'z').is_empty());
}

#[test]
fn sgr_attributes_and_colours() {
    assert_eq!(
        sgr_commands(&p(&[0, 1, 2, 3, 4, 7, 8, 9])),
        vec![
            TerminalCommand::ResetAttributes,
            TerminalCommand::SetBold,
            TerminalCommand::SetDim,
            TerminalCommand::SetItalic,
            TerminalCommand::SetUnderline,
            TerminalCommand::SetInverse,
            TerminalCommand::SetHidden,
            TerminalCommand::SetStrikethrough,
        ]
    );
    assert_eq!(
        sgr_commands(&p(&[31, 42, 39, 49, 91, 107, 5])),
        vec![
            TerminalCommand::SetForeground(Color::Indexed(1)),
            TerminalCommand::SetBackground(Color::Indexed(2)),
            TerminalCommand::SetForeground(Color::Default),
            TerminalCommand::SetBackground(Color::Default),
            TerminalCommand::SetForeground(Color::Indexed(9)),
            TerminalCommand::SetBackground(Color::Indexed(15)),
        ]
    );
}

#[test]
fn sgr_extended_colours() {
    assert_eq!(
        csi_commands(&p(&[38, 5, 196, 48, 2, 10, 20, 30, 1]), 'm'),
        vec![
            TerminalCommand::SetForeground(Color::Indexed(196)),
            TerminalCommand::SetBackground(Color::Rgb(Rgb::new(10, 20, 30))),
            TerminalCommand::SetBold,
        ]
    );
    // An unknown colour form stops after its first parameter.
    assert_eq!(sgr_commands(&p(&[38, 7, 1])), vec![TerminalCommand::SetBold]);
    // Cut short at the end: nothing.
    assert!(sgr_commands(&p(&[48, 2, 1, 2])).is_empty());
    // Values are cut to their low byte.
    assert_eq!(sgr_commands(&p(&[38, 5, 300])), vec![TerminalCommand::SetForeground(Color::Indexed(44))]);
}

#[test]
fn c0_controls_and_printing() {
    assert_eq!(execute_command(0x07), Some(TerminalCommand::Bell));
    assert_eq!(execute_command(0x08), Some(TerminalCommand::Backspace));
    assert_eq!(execute_command(0x09), Some(TerminalCommand::Tab));
    assert_eq!(execute_command(0x0A), Some(TerminalCommand::Newline));
    assert_eq!(execute_command(0x0D), Some(TerminalCommand::CarriageReturn));
    assert_eq!(execute_command(0x00), None);
    assert_eq!(print_command('한'), TerminalCommand::Print('한'));
}
