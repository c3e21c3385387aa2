use growterm::ink_workaround::{find_prompt_row, InkImeState};
use growterm::types::Cell;

/// The process name the app looks for.
const PROGRAM: &str = "ink-app";

fn make_row(chars: &str, width: usize) -> Vec<Cell> {
    let mut row = vec![Cell::default(); width];
    for (i, ch) in chars.chars().enumerate() {
        if i < width {
            row[i].character = ch;
        }
    }
    row
}

#[test]
fn find_prompt_row_between_separators() {
    let cells = vec![
        make_row("hello", 80),
        make_row("─────", 80),
        make_row("❯ ", 80),
        make_row("─────", 80),
        make_row("output", 80),
    ];
    assert_eq!(find_prompt_row(&cells), Some(2));
}

#[test]
fn find_prompt_row_no_separators() {
    let cells = vec![make_row("hello", 80), make_row("❯ ", 80)];
    assert_eq!(find_prompt_row(&cells), None);
}

#[test]
fn find_prompt_row_no_prompt() {
    let cells = vec![make_row("─────", 80), make_row("hello", 80), make_row("─────", 80)];
    assert_eq!(find_prompt_row(&cells), None);
}

#[test]
fn preedit_pos_not_active() {
    let state = InkImeState::new();
    let cells = vec![make_row("─────", 80), make_row("❯ ", 80), make_row("─────", 80)];
    assert_eq!(state.preedit_pos(&cells, 80), None);
}

#[test]
fn preedit_pos_with_committed_width() {
    let state = InkImeState { ink_app_cached: Some(true), committed_width: 4 };
    let cells = vec![make_row("─────", 80), make_row("❯ hello", 80), make_row("─────", 80)];
    // col = 2 + 4 = 6, row = 1 + 6/80 = 1, col = 6 % 80 = 6
    assert_eq!(state.preedit_pos(&cells, 80), Some((1, 6)));
}

#[test]
fn on_text_commit_accumulates_width() {
    let mut state = InkImeState { ink_app_cached: Some(true), committed_width: 0 };
    state.on_text_commit("한"); // width 2
    assert_eq!(state.committed_width, 2);
    state.on_text_commit("ab"); // width 2
    assert_eq!(state.committed_width, 4);
}

#[test]
fn on_preedit_detects_claude() {
    let mut state = InkImeState::new();
    state.on_preedit_with(Some(1), PROGRAM, |_, _| true);
    assert!(state.is_active());
}

#[test]
fn on_preedit_resets_width_when_not_claude() {
    let mut state = InkImeState { ink_app_cached: Some(true), committed_width: 5 };
    state.on_preedit_with(Some(1), PROGRAM, |_, _| false);
    assert!(!state.is_active());
    assert_eq!(state.committed_width, 0);
}

#[test]
fn on_preedit_noop_without_pid() {
    let mut state = InkImeState::new();
    state.on_preedit_with(None, PROGRAM, |_, _| panic!("should not be called"));
    assert_eq!(state.ink_app_cached, None);
}

#[test]
fn on_enter_resets_width() {
    let mut state = InkImeState { ink_app_cached: Some(true), committed_width: 10 };
    state.on_enter();
    assert_eq!(state.committed_width, 0);
}

#[test]
fn the_process_test_is_asked_about_the_program_of_the_child() {
    let mut state = InkImeState::new();
    state.on_preedit_with(Some(42), PROGRAM, |pid, name| pid == 42 && name == PROGRAM);
    assert!(state.is_active());
}

#[test]
fn the_preedit_wraps_at_the_width() {
    let state = InkImeState { ink_app_cached: Some(true), committed_width: 9 };
    let cells = vec![make_row("─", 10), make_row("❯", 10), make_row("─", 10)];
    // col = 2 + 9 = 11 → one row down, column 1
    assert_eq!(state.preedit_pos(&cells, 10), Some((2, 1)));
}

#[test]
fn the_lowest_prompt_box_wins() {
    let cells = vec![
        make_row("─", 4),
        make_row("❯ old", 4),
        make_row("─", 4),
        make_row("text", 4),
        make_row("─", 4),
        make_row("x", 4),
        make_row("❯", 4),
        make_row("❯", 4),
        make_row("─", 4),
    ];
    assert_eq!(find_prompt_row(&cells), Some(6));
}

#[test]
fn committed_width_counts_only_while_active_and_saturates() {
    let mut state = InkImeState::new();
    state.on_text_commit("abc");
    assert_eq!(state.committed_width, 0);
    let mut state = InkImeState { ink_app_cached: Some(true), committed_width: u16::MAX - 1 };
    state.on_text_commit("ab");
    assert_eq!(state.committed_width, u16::MAX);
}

#[test]
fn widths_count_wide_characters_twice() {
    assert_eq!(InkImeState::text_width_u16("ab한"), Some(4));
    assert_eq!(InkImeState::text_width_u16(""), Some(0));
    let long = "한".repeat(40_000);
    assert_eq!(InkImeState::text_width_u16(&long), None);
    let mut state = InkImeState { ink_app_cached: Some(true), committed_width: 1 };
    assert!(!state.try_on_text_commit(&long));
    assert_eq!(state.committed_width, 1);
    assert!(state.try_on_text_commit("한"));
    assert_eq!(state.committed_width, 3);
}
