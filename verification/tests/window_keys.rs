use growterm::keys::{ime_step, ImeEvent, TextEvent};
use growterm::keycode as kc;
use growterm::keys::{as_mouse_modifiers, route_key, shortcut, KeyEventType, KeyRoute, Modifiers, Shortcut};

fn ctrl_shift() -> Modifiers {
    Modifiers::control().union(Modifiers::shift())
}

fn remapped(keycode: u16, modifiers: Modifiers) -> Modifiers {
    match shortcut(Some(keycode), modifiers, false) {
        Some(Shortcut::AsSuper(m)) => m,
        other => panic!("expected a remap, got {other:?}"),
    }
}

#[test]
fn ctrl_shift_c_and_v_reach_copy_and_paste() {
    assert_eq!(remapped(kc::ANSI_C, ctrl_shift()), Modifiers::super_());
    assert_eq!(remapped(kc::ANSI_V, ctrl_shift()), Modifiers::super_());
}

#[test]
fn ctrl_shift_a_copies_the_input_line() {
    assert_eq!(remapped(kc::ANSI_A, ctrl_shift()), Modifiers::super_());
}

#[test]
fn ctrl_shift_f_opens_search() {
    assert_eq!(remapped(kc::ANSI_F, ctrl_shift()), Modifiers::super_());
}

#[test]
fn ctrl_shift_scroll_keys_reach_the_scrollback() {
    for key in [kc::PAGE_UP, kc::PAGE_DOWN, kc::HOME, kc::END] {
        assert_eq!(remapped(key, ctrl_shift()), Modifiers::super_());
    }
}

#[test]
fn ctrl_shift_n_t_w_open_and_close() {
    for key in [kc::ANSI_N, kc::ANSI_T, kc::ANSI_W] {
        assert_eq!(remapped(key, ctrl_shift()), Modifiers::super_());
    }
}

#[test]
fn ctrl_zoom_keys_remap_to_super() {
    for key in [kc::ANSI_EQUAL, kc::ANSI_MINUS] {
        assert_eq!(remapped(key, Modifiers::control()), Modifiers::super_());
    }
}

#[test]
fn alt_digits_switch_tabs() {
    for key in [kc::ANSI_1, kc::ANSI_5, kc::ANSI_9] {
        assert_eq!(remapped(key, Modifiers::alt()), Modifiers::super_());
    }
}

/// The app cycles tabs on SUPER+SHIFT, so the shift has to survive.
#[test]
fn alt_brackets_cycle_tabs_with_shift_intact() {
    for key in [kc::ANSI_LEFT_BRACKET, kc::ANSI_RIGHT_BRACKET] {
        assert_eq!(remapped(key, Modifiers::alt()), Modifiers::super_().union(Modifiers::shift()));
    }
}

#[test]
fn ctrl_click_stands_in_for_cmd_click() {
    assert_eq!(
        as_mouse_modifiers(Modifiers::control()),
        Modifiers::super_(),
        "GNOME keeps the Super key, so Ctrl is what a Linux user can press"
    );
}

#[test]
fn ctrl_click_keeps_the_other_modifiers() {
    assert_eq!(
        as_mouse_modifiers(Modifiers::control().union(Modifiers::shift())),
        Modifiers::super_().union(Modifiers::shift())
    );
}

#[test]
fn a_plain_click_stays_plain() {
    assert_eq!(as_mouse_modifiers(Modifiers::empty()), Modifiers::empty());
    assert_eq!(as_mouse_modifiers(Modifiers::alt()), Modifiers::alt());
}

#[test]
fn the_toggles_leave_their_letters_to_the_shell() {
    // The toggles are in the dock's right-click menu and the config
    // reloads itself, so the app running inside gets these chords.
    for key in [kc::ANSI_P, kc::ANSI_R, kc::ANSI_K, kc::ANSI_O, kc::ANSI_L] {
        assert!(
            shortcut(Some(key), ctrl_shift(), false).is_none(),
            "ctrl+shift+{key:#x} should reach the shell"
        );
    }
}

#[test]
fn ctrl_v_pastes_and_ctrl_a_copies_the_input_line() {
    assert_eq!(remapped(kc::ANSI_V, Modifiers::control()), Modifiers::super_());
    assert_eq!(remapped(kc::ANSI_A, Modifiers::control()), Modifiers::super_());
}

#[test]
fn ctrl_c_copies_a_selection() {
    assert_eq!(
        shortcut(Some(kc::ANSI_C), Modifiers::control(), true),
        Some(Shortcut::AsSuper(Modifiers::super_()))
    );
}

/// Without a selection there is nothing to copy, so the shell keeps its
/// interrupt.
#[test]
fn ctrl_c_stays_sigint_with_nothing_selected() {
    assert!(shortcut(Some(kc::ANSI_C), Modifiers::control(), false).is_none());
}

#[test]
fn other_ctrl_keys_reach_the_terminal() {
    assert!(shortcut(Some(kc::ANSI_P), Modifiers::control(), true).is_none());
    assert!(shortcut(Some(kc::ANSI_D), Modifiers::control(), true).is_none());
}

#[test]
fn unmodified_keys_reach_the_terminal() {
    assert!(shortcut(Some(kc::ANSI_C), Modifiers::empty(), true).is_none());
    assert!(shortcut(None, ctrl_shift(), false).is_none());
}

#[test]
fn a_plain_letter_is_committed_as_text() {
    let r = route_key(KeyEventType::Press, Some(kc::ANSI_A), Some("a"), Modifiers::empty(), false, false, false);
    assert_eq!(r, KeyRoute::Commit);
}

#[test]
fn a_composing_ime_keeps_all_but_the_shortcuts() {
    let r = route_key(KeyEventType::Press, Some(kc::ANSI_A), Some("a"), Modifiers::empty(), false, true, false);
    assert_eq!(r, KeyRoute::Ignore);
    let r = route_key(KeyEventType::Press, Some(kc::ANSI_V), None, Modifiers::control(), false, true, false);
    assert_eq!(r, KeyRoute::Key(Modifiers::super_()));
}

#[test]
fn control_text_copy_mode_and_releases_go_as_keys() {
    let r = route_key(KeyEventType::Press, Some(kc::RETURN), Some("\r"), Modifiers::empty(), false, false, false);
    assert_eq!(r, KeyRoute::Key(Modifiers::empty()));
    let r = route_key(KeyEventType::Press, Some(kc::ANSI_J), Some("j"), Modifiers::empty(), false, false, true);
    assert_eq!(r, KeyRoute::Key(Modifiers::empty()));
    let r = route_key(KeyEventType::Release, Some(kc::ANSI_J), Some("j"), Modifiers::empty(), false, false, false);
    assert_eq!(r, KeyRoute::Key(Modifiers::empty()));
    let r = route_key(KeyEventType::Press, None, None, Modifiers::empty(), false, false, false);
    assert_eq!(r, KeyRoute::Ignore);
}

#[test]
fn an_ime_commit_clears_the_preedit_then_sends_the_text() {
    let step = ime_step(ImeEvent::Commit("한".to_string()));
    assert!(!step.composing);
    assert_eq!(step.events.len(), 2);
    assert!(matches!(&step.events[0], TextEvent::Preedit(p) if p.is_empty()));
    assert!(matches!(&step.events[1], TextEvent::TextCommit(t) if t == "한"));

    let step = ime_step(ImeEvent::Preedit("ㅎ".to_string()));
    assert!(step.composing);
    assert!(matches!(&step.events[..], [TextEvent::Preedit(p)] if p == "ㅎ"));
    assert!(!ime_step(ImeEvent::Preedit(String::new())).composing);

    let step = ime_step(ImeEvent::Disabled);
    assert!(!step.composing);
    assert!(step.events.is_empty());
}
