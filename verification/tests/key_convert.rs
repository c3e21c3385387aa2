use growterm::key_event::{
    convert_key, convert_logical_key, Key, KeyEvent, KeyModifiers, LogicalKey, NamedKey,
};
use growterm::keycode;
use growterm::keys::Modifiers;

fn no_key_mods() -> KeyModifiers {
    KeyModifiers { ctrl: false, alt: false, shift: false }
}

// --- macOS key codes ---

#[test]
fn return_key() {
    let result = convert_key(keycode::RETURN, None, Modifiers::empty());
    assert_eq!(result, Some(KeyEvent { key: Key::Enter, modifiers: no_key_mods() }));
}

#[test]
fn key_convert_tab_key() {
    let result = convert_key(keycode::TAB, None, Modifiers::empty());
    assert_eq!(result, Some(KeyEvent { key: Key::Tab, modifiers: no_key_mods() }));
}

#[test]
fn key_convert_escape_key() {
    let result = convert_key(keycode::ESCAPE, None, Modifiers::empty());
    assert_eq!(result, Some(KeyEvent { key: Key::Escape, modifiers: no_key_mods() }));
}

#[test]
fn key_convert_backspace_key() {
    let result = convert_key(keycode::DELETE, None, Modifiers::empty());
    assert_eq!(result, Some(KeyEvent { key: Key::Backspace, modifiers: no_key_mods() }));
}

#[test]
fn forward_delete_key() {
    let result = convert_key(keycode::FORWARD_DELETE, None, Modifiers::empty());
    assert_eq!(result, Some(KeyEvent { key: Key::Delete, modifiers: no_key_mods() }));
}

#[test]
fn key_convert_arrow_keys() {
    assert_eq!(convert_key(keycode::UP_ARROW, None, Modifiers::empty()).unwrap().key, Key::ArrowUp);
    assert_eq!(convert_key(keycode::DOWN_ARROW, None, Modifiers::empty()).unwrap().key, Key::ArrowDown);
    assert_eq!(convert_key(keycode::LEFT_ARROW, None, Modifiers::empty()).unwrap().key, Key::ArrowLeft);
    assert_eq!(convert_key(keycode::RIGHT_ARROW, None, Modifiers::empty()).unwrap().key, Key::ArrowRight);
}

#[test]
fn key_convert_home_end_page_keys() {
    assert_eq!(convert_key(keycode::HOME, None, Modifiers::empty()).unwrap().key, Key::Home);
    assert_eq!(convert_key(keycode::END, None, Modifiers::empty()).unwrap().key, Key::End);
    assert_eq!(convert_key(keycode::PAGE_UP, None, Modifiers::empty()).unwrap().key, Key::PageUp);
    assert_eq!(convert_key(keycode::PAGE_DOWN, None, Modifiers::empty()).unwrap().key, Key::PageDown);
}

#[test]
fn key_convert_space_key() {
    let result = convert_key(keycode::SPACE, None, Modifiers::empty());
    assert_eq!(result, Some(KeyEvent { key: Key::Char(' '), modifiers: no_key_mods() }));
}

#[test]
fn character_key() {
    let result = convert_key(0x00, Some("a"), Modifiers::empty()); // 0x00 = kVK_ANSI_A
    assert_eq!(result, Some(KeyEvent { key: Key::Char('a'), modifiers: no_key_mods() }));
}

#[test]
fn key_convert_ctrl_c() {
    let result = convert_key(0x08, Some("c"), Modifiers::control()); // 0x08 = kVK_ANSI_C
    assert_eq!(
        result,
        Some(KeyEvent { key: Key::Char('c'), modifiers: KeyModifiers { ctrl: true, alt: false, shift: false } })
    );
}

#[test]
fn key_convert_alt_d() {
    let result = convert_key(0x02, Some("d"), Modifiers::alt()); // 0x02 = kVK_ANSI_D
    assert_eq!(
        result,
        Some(KeyEvent { key: Key::Char('d'), modifiers: KeyModifiers { ctrl: false, alt: true, shift: false } })
    );
}

#[test]
fn shift_arrow() {
    let result = convert_key(keycode::UP_ARROW, None, Modifiers::shift().union(Modifiers::control()));
    let result = result.unwrap();
    assert_eq!(result.key, Key::ArrowUp);
    assert!(result.modifiers.ctrl);
    assert!(result.modifiers.shift);
}

#[test]
fn unknown_keycode_no_characters_returns_none() {
    let result = convert_key(0xFF, None, Modifiers::empty());
    assert_eq!(result, None);
}

#[test]
fn multi_char_characters_returns_none() {
    let result = convert_key(0x00, Some("ab"), Modifiers::empty());
    assert_eq!(result, None);
}

#[test]
fn command_is_not_passed_to_the_encoder() {
    let result = convert_key(0x00, Some("a"), Modifiers::super_());
    assert_eq!(result, Some(KeyEvent { key: Key::Char('a'), modifiers: no_key_mods() }));
}

// --- logical keys of the windowing toolkit ---

fn pressed(key: LogicalKey, mods: KeyModifiers) -> Option<KeyEvent> {
    convert_logical_key(&key, true, mods)
}

fn ch(s: &str) -> LogicalKey {
    LogicalKey::Character(s.to_string())
}

#[test]
fn released_key_returns_none() {
    assert_eq!(convert_logical_key(&ch("a"), false, no_key_mods()), None);
}

#[test]
fn simple_char_a() {
    assert_eq!(pressed(ch("a"), no_key_mods()), Some(KeyEvent { key: Key::Char('a'), modifiers: no_key_mods() }));
}

#[test]
fn simple_char_uppercase() {
    let shift = KeyModifiers { ctrl: false, alt: false, shift: true };
    assert_eq!(pressed(ch("A"), shift), Some(KeyEvent { key: Key::Char('A'), modifiers: shift }));
}

#[test]
fn simple_char_digit() {
    assert_eq!(pressed(ch("5"), no_key_mods()), Some(KeyEvent { key: Key::Char('5'), modifiers: no_key_mods() }));
}

#[test]
fn simple_char_symbol() {
    assert_eq!(pressed(ch("/"), no_key_mods()), Some(KeyEvent { key: Key::Char('/'), modifiers: no_key_mods() }));
}

#[test]
fn unicode_char() {
    assert_eq!(pressed(ch("한"), no_key_mods()), Some(KeyEvent { key: Key::Char('한'), modifiers: no_key_mods() }));
}

#[test]
fn multi_char_string_returns_none() {
    assert_eq!(pressed(ch("ab"), no_key_mods()), None);
}

#[test]
fn enter_key() {
    assert_eq!(
        pressed(LogicalKey::Named(NamedKey::Enter), no_key_mods()),
        Some(KeyEvent { key: Key::Enter, modifiers: no_key_mods() })
    );
}

#[test]
fn logical_tab_key() {
    assert_eq!(
        pressed(LogicalKey::Named(NamedKey::Tab), no_key_mods()),
        Some(KeyEvent { key: Key::Tab, modifiers: no_key_mods() })
    );
}

#[test]
fn logical_escape_key() {
    assert_eq!(
        pressed(LogicalKey::Named(NamedKey::Escape), no_key_mods()),
        Some(KeyEvent { key: Key::Escape, modifiers: no_key_mods() })
    );
}

#[test]
fn logical_backspace_key() {
    assert_eq!(
        pressed(LogicalKey::Named(NamedKey::Backspace), no_key_mods()),
        Some(KeyEvent { key: Key::Backspace, modifiers: no_key_mods() })
    );
}

#[test]
fn delete_key() {
    assert_eq!(
        pressed(LogicalKey::Named(NamedKey::Delete), no_key_mods()),
        Some(KeyEvent { key: Key::Delete, modifiers: no_key_mods() })
    );
}

#[test]
fn logical_arrow_keys() {
    assert_eq!(pressed(LogicalKey::Named(NamedKey::ArrowUp), no_key_mods()).unwrap().key, Key::ArrowUp);
    assert_eq!(pressed(LogicalKey::Named(NamedKey::ArrowDown), no_key_mods()).unwrap().key, Key::ArrowDown);
    assert_eq!(pressed(LogicalKey::Named(NamedKey::ArrowLeft), no_key_mods()).unwrap().key, Key::ArrowLeft);
    assert_eq!(pressed(LogicalKey::Named(NamedKey::ArrowRight), no_key_mods()).unwrap().key, Key::ArrowRight);
}

#[test]
fn logical_home_end_page_keys() {
    assert_eq!(pressed(LogicalKey::Named(NamedKey::Home), no_key_mods()).unwrap().key, Key::Home);
    assert_eq!(pressed(LogicalKey::Named(NamedKey::End), no_key_mods()).unwrap().key, Key::End);
    assert_eq!(pressed(LogicalKey::Named(NamedKey::PageUp), no_key_mods()).unwrap().key, Key::PageUp);
    assert_eq!(pressed(LogicalKey::Named(NamedKey::PageDown), no_key_mods()).unwrap().key, Key::PageDown);
}

#[test]
fn logical_space_key() {
    assert_eq!(
        pressed(LogicalKey::Named(NamedKey::Space), no_key_mods()),
        Some(KeyEvent { key: Key::Char(' '), modifiers: no_key_mods() })
    );
}

#[test]
fn logical_ctrl_c() {
    let ctrl = KeyModifiers { ctrl: true, alt: false, shift: false };
    assert_eq!(pressed(ch("c"), ctrl), Some(KeyEvent { key: Key::Char('c'), modifiers: ctrl }));
}

#[test]
fn logical_alt_d() {
    let alt = KeyModifiers { ctrl: false, alt: true, shift: false };
    assert_eq!(pressed(ch("d"), alt), Some(KeyEvent { key: Key::Char('d'), modifiers: alt }));
}

#[test]
fn ctrl_shift_arrow() {
    let mods = KeyModifiers { ctrl: true, alt: false, shift: true };
    let result = pressed(LogicalKey::Named(NamedKey::ArrowUp), mods).unwrap();
    assert_eq!(result.key, Key::ArrowUp);
    assert!(result.modifiers.ctrl);
    assert!(result.modifiers.shift);
}

#[test]
fn unsupported_named_key_returns_none() {
    assert_eq!(pressed(LogicalKey::Named(NamedKey::Other), no_key_mods()), None);
}

#[test]
fn dead_key_returns_none() {
    assert_eq!(pressed(LogicalKey::Unidentified, no_key_mods()), None);
}
