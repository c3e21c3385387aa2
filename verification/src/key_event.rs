//! Key events as the input encoder takes them: a key (a character or a
//! named key) with Ctrl, Alt and Shift, converted from what the window
//! systems report.
use vstd::prelude::*;

use crate::keycode;
use crate::keys::Modifiers;

verus! {

/// A key the terminal encodes.
#[derive(Debug, Clone, Copy, PartialEq, Eq, Structural)]
pub enum Key {
    Char(char),
    Enter,
    Tab,
    Escape,
    Backspace,
    Delete,
    ArrowUp,
    ArrowDown,
    ArrowLeft,
    ArrowRight,
    Home,
    End,
    PageUp,
    PageDown,
}

/// The modifiers the encoder reads.
#[derive(Debug, Clone, Copy, PartialEq, Eq, Structural)]
pub struct KeyModifiers {
    pub ctrl: bool,
    pub alt: bool,
    pub shift: bool,
}

#[derive(Debug, Clone, Copy, PartialEq, Eq, Structural)]
pub struct KeyEvent {
    pub key: Key,
    pub modifiers: KeyModifiers,
}

/// A named key as the windowing toolkit reports it; the ones the terminal
/// does not encode are `Other`.
#[derive(Debug, Clone, Copy, PartialEq, Eq, Structural)]
pub enum NamedKey {
    Enter,
    Tab,
    Escape,
    Backspace,
    Delete,
    ArrowUp,
    ArrowDown,
    ArrowLeft,
    ArrowRight,
    Home,
    End,
    PageUp,
    PageDown,
    Space,
    Other,
}

/// A logical key as the windowing toolkit reports it.
#[derive(Debug, Clone, PartialEq, Eq)]
pub enum LogicalKey {
    Named(NamedKey),
    Character(String),
    Unidentified,
}

/// Ctrl, Alt and Shift of a modifier set (Command is not passed on).
pub open spec fn spec_key_modifiers(m: Modifiers) -> KeyModifiers {
    KeyModifiers { ctrl: m.control, alt: m.alt, shift: m.shift }
}

pub fn convert_modifiers(m: Modifiers) -> (k: KeyModifiers)
    ensures
        k == spec_key_modifiers(m),
{
    KeyModifiers { ctrl: m.control, alt: m.alt, shift: m.shift }
}

/// The key of a macOS key code for the keys that have a name (Space is the
/// space character); none for the others.
pub open spec fn spec_named_keycode(code: u16) -> Option<Key> {
    if code == keycode::RETURN {
        Some(Key::Enter)
    } else if code == keycode::TAB {
        Some(Key::Tab)
    } else if code == keycode::ESCAPE {
        Some(Key::Escape)
    } else if code == keycode::DELETE {
        Some(Key::Backspace)
    } else if code == keycode::FORWARD_DELETE {
        Some(Key::Delete)
    } else if code == keycode::UP_ARROW {
        Some(Key::ArrowUp)
    } else if code == keycode::DOWN_ARROW {
        Some(Key::ArrowDown)
    } else if code == keycode::LEFT_ARROW {
        Some(Key::ArrowLeft)
    } else if code == keycode::RIGHT_ARROW {
        Some(Key::ArrowRight)
    } else if code == keycode::HOME {
        Some(Key::Home)
    } else if code == keycode::END {
        Some(Key::End)
    } else if code == keycode::PAGE_UP {
        Some(Key::PageUp)
    } else if code == keycode::PAGE_DOWN {
        Some(Key::PageDown)
    } else if code == keycode::SPACE {
        Some(Key::Char(' '))
    } else {
        None
    }
}

/// The key event of a macOS key: a named key by its code, otherwise the
/// one character the key typed (none when it typed none or several).
pub open spec fn spec_convert_key(code: u16, characters: Option<Seq<char>>, m: Modifiers) -> Option<
    KeyEvent,
> {
    match spec_named_keycode(code) {
        Some(k) => Some(KeyEvent { key: k, modifiers: spec_key_modifiers(m) }),
        None => match characters {
            Some(s) => if s.len() == 1 {
                Some(KeyEvent { key: Key::Char(s[0]), modifiers: spec_key_modifiers(m) })
            } else {
                None
            },
            None => None,
        },
    }
}

fn named_keycode(code: u16) -> (k: Option<Key>)
    ensures
        k == spec_named_keycode(code),
{
    if code == keycode::RETURN {
        Some(Key::Enter)
    } else if code == keycode::TAB {
        Some(Key::Tab)
    } else if code == keycode::ESCAPE {
        Some(Key::Escape)
    } else if code == keycode::DELETE {
        Some(Key::Backspace)
    } else if code == keycode::FORWARD_DELETE {
        Some(Key::Delete)
    } else if code == keycode::UP_ARROW {
        Some(Key::ArrowUp)
    } else if code == keycode::DOWN_ARROW {
        Some(Key::ArrowDown)
    } else if code == keycode::LEFT_ARROW {
        Some(Key::ArrowLeft)
    } else if code == keycode::RIGHT_ARROW {
        Some(Key::ArrowRight)
    } else if code == keycode::HOME {
        Some(Key::Home)
    } else if code == keycode::END {
        Some(Key::End)
    } else if code == keycode::PAGE_UP {
        Some(Key::PageUp)
    } else if code == keycode::PAGE_DOWN {
        Some(Key::PageDown)
    } else if code == keycode::SPACE {
        Some(Key::Char(' '))
    } else {
        None
    }
}

/// Converts a macOS key code, the characters it typed and the modifiers
/// into a key event.
pub fn convert_key(code: u16, characters: Option<&str>, modifiers: Modifiers) -> (e: Option<KeyEvent>)
    ensures
        e == spec_convert_key(
            code,
            match characters {
                Some(s) => Some(s@),
                None => None,
            },
            modifiers,
        ),
{
    let mods = convert_modifiers(modifiers);
    match named_keycode(code) {
        Some(k) => Some(KeyEvent { key: k, modifiers: mods }),
        None => match characters {
            Some(s) => {
                if s.unicode_len() == 1 {
                    Some(KeyEvent { key: Key::Char(s.get_char(0)), modifiers: mods })
                } else {
                    None
                }
            },
            None => None,
        },
    }
}

/// The key event of a logical key that was pressed: the named keys the
/// terminal encodes, or a key that typed exactly one character. Released
/// keys, other named keys and unidentified keys give none.
pub open spec fn spec_convert_logical_key(key: LogicalKey, pressed: bool, m: KeyModifiers) -> Option<
    KeyEvent,
> {
    if !pressed {
        None
    } else {
        let k = match key {
            LogicalKey::Named(n) => match n {
                NamedKey::Enter => Some(Key::Enter),
                NamedKey::Tab => Some(Key::Tab),
                NamedKey::Escape => Some(Key::Escape),
                NamedKey::Backspace => Some(Key::Backspace),
                NamedKey::Delete => Some(Key::Delete),
                NamedKey::ArrowUp => Some(Key::ArrowUp),
                NamedKey::ArrowDown => Some(Key::ArrowDown),
                NamedKey::ArrowLeft => Some(Key::ArrowLeft),
                NamedKey::ArrowRight => Some(Key::ArrowRight),
                NamedKey::Home => Some(Key::Home),
                NamedKey::End => Some(Key::End),
                NamedKey::PageUp => Some(Key::PageUp),
                NamedKey::PageDown => Some(Key::PageDown),
                NamedKey::Space => Some(Key::Char(' ')),
                NamedKey::Other => None,
            },
            LogicalKey::Character(s) => if s@.len() == 1 {
                Some(Key::Char(s@[0]))
            } else {
                None
            },
            LogicalKey::Unidentified => None,
        };
        match k {
            Some(k) => Some(KeyEvent { key: k, modifiers: m }),
            None => None,
        }
    }
}

/// Converts a logical key of the windowing toolkit into a key event.
pub fn convert_logical_key(key: &LogicalKey, pressed: bool, modifiers: KeyModifiers) -> (e: Option<
    KeyEvent,
>)
    ensures
        e == spec_convert_logical_key(*key, pressed, modifiers),
{
    if !pressed {
        return None;
    }
    let k = match key {
        LogicalKey::Named(n) => match n {
            NamedKey::Enter => Key::Enter,
            NamedKey::Tab => Key::Tab,
            NamedKey::Escape => Key::Escape,
            NamedKey::Backspace => Key::Backspace,
            NamedKey::Delete => Key::Delete,
            NamedKey::ArrowUp => Key::ArrowUp,
            NamedKey::ArrowDown => Key::ArrowDown,
            NamedKey::ArrowLeft => Key::ArrowLeft,
            NamedKey::ArrowRight => Key::ArrowRight,
            NamedKey::Home => Key::Home,
            NamedKey::End => Key::End,
            NamedKey::PageUp => Key::PageUp,
            NamedKey::PageDown => Key::PageDown,
            NamedKey::Space => Key::Char(' '),
            NamedKey::Other => {
                return None;
            },
        },
        LogicalKey::Character(s) => {
            if s.as_str().unicode_len() == 1 {
                Key::Char(s.as_str().get_char(0))
            } else {
                return None;
            }
        },
        LogicalKey::Unidentified => {
            return None;
        },
    };
    Some(KeyEvent { key: k, modifiers })
}

} // verus!
