//! Modifier sets, and the Linux shortcut remapping.
use vstd::prelude::*;
use crate::keycode;

verus! {

/// A set of modifier keys.
#[derive(Debug, Clone, Copy, PartialEq, Eq, Structural, Default)]
pub struct Modifiers {
    pub shift: bool,
    pub control: bool,
    pub alt: bool,
    pub super_key: bool,
}

impl Modifiers {
    pub fn empty() -> (m: Modifiers)
        ensures
            m == (Modifiers { shift: false, control: false, alt: false, super_key: false }),
    {
        Modifiers { shift: false, control: false, alt: false, super_key: false }
    }

    pub fn shift() -> (m: Modifiers)
        ensures
            m == (Modifiers { shift: true, control: false, alt: false, super_key: false }),
    {
        Modifiers { shift: true, control: false, alt: false, super_key: false }
    }

    pub fn control() -> (m: Modifiers)
        ensures
            m == (Modifiers { shift: false, control: true, alt: false, super_key: false }),
    {
        Modifiers { shift: false, control: true, alt: false, super_key: false }
    }

    pub fn alt() -> (m: Modifiers)
        ensures
            m == (Modifiers { shift: false, control: false, alt: true, super_key: false }),
    {
        Modifiers { shift: false, control: false, alt: true, super_key: false }
    }

    pub fn super_() -> (m: Modifiers)
        ensures
            m == (Modifiers { shift: false, control: false, alt: false, super_key: true }),
    {
        Modifiers { shift: false, control: false, alt: false, super_key: true }
    }

    pub open spec fn spec_union(self, other: Modifiers) -> Modifiers {
        Modifiers {
            shift: self.shift || other.shift,
            control: self.control || other.control,
            alt: self.alt || other.alt,
            super_key: self.super_key || other.super_key,
        }
    }

    /// The modifiers in either set.
    pub fn union(self, other: Modifiers) -> (m: Modifiers)
        ensures
            m == self.spec_union(other),
    {
        Modifiers {
            shift: self.shift || other.shift,
            control: self.control || other.control,
            alt: self.alt || other.alt,
            super_key: self.super_key || other.super_key,
        }
    }

    /// Whether every modifier of `other` is in this set.
    pub fn contains(self, other: Modifiers) -> (b: bool)
        ensures
            b == ((other.shift ==> self.shift) && (other.control ==> self.control) && (other.alt
                ==> self.alt) && (other.super_key ==> self.super_key)),
    {
        (!other.shift || self.shift) && (!other.control || self.control) && (!other.alt || self.alt)
            && (!other.super_key || self.super_key)
    }

    pub fn is_empty(self) -> (b: bool)
        ensures
            b == (!self.shift && !self.control && !self.alt && !self.super_key),
    {
        !self.shift && !self.control && !self.alt && !self.super_key
    }
}

/// What the Linux window layer does with a modified key press.
#[derive(Debug, Clone, Copy, PartialEq, Eq, Structural)]
pub enum Shortcut {
    /// Stand in these modifiers, so the handlers shared with macOS run.
    AsSuper(Modifiers),
}

pub open spec fn super_only() -> Modifiers {
    Modifiers { shift: false, control: false, alt: false, super_key: true }
}

pub open spec fn is_digit_key(key: u16) -> bool {
    key == keycode::ANSI_1 || key == keycode::ANSI_2 || key == keycode::ANSI_3 || key == keycode::ANSI_4
        || key == keycode::ANSI_5 || key == keycode::ANSI_6 || key == keycode::ANSI_7
        || key == keycode::ANSI_8 || key == keycode::ANSI_9
}

/// Linux app shortcuts: Ctrl+Shift stands in for Cmd (new window or tab,
/// close, copy, paste, copy the input line, search, scrollback), Ctrl alone
/// for zoom, paste, copying the input line, and copying a selection; Alt for
/// switching tabs by number (Cmd) and cycling them (Cmd+Shift).
pub open spec fn spec_shortcut(keycode: Option<u16>, m: Modifiers, has_selection: bool) -> Option<Shortcut> {
    match keycode {
        None => None,
        Some(key) => {
            if m.control && m.shift {
                if key == keycode::ANSI_N || key == keycode::ANSI_T || key == keycode::ANSI_W
                    || key == keycode::ANSI_C || key == keycode::ANSI_V || key == keycode::ANSI_A
                    || key == keycode::ANSI_F || key == keycode::PAGE_UP || key == keycode::PAGE_DOWN
                    || key == keycode::HOME || key == keycode::END {
                    Some(Shortcut::AsSuper(super_only()))
                } else {
                    None
                }
            } else if m.control && (key == keycode::ANSI_EQUAL || key == keycode::ANSI_MINUS
                || key == keycode::ANSI_V || key == keycode::ANSI_A || (key == keycode::ANSI_C
                && has_selection)) {
                Some(Shortcut::AsSuper(super_only()))
            } else if m.alt && is_digit_key(key) {
                Some(Shortcut::AsSuper(super_only()))
            } else if m.alt && (key == keycode::ANSI_LEFT_BRACKET || key == keycode::ANSI_RIGHT_BRACKET) {
                Some(Shortcut::AsSuper(Modifiers { shift: true, ..super_only() }))
            } else {
                None
            }
        },
    }
}

/// GNOME and X11 claim the Super key, so Linux app shortcuts are built on
/// Ctrl+Shift (macOS Cmd) and Alt (tab movement) instead.
pub fn shortcut(keycode: Option<u16>, modifiers: Modifiers, has_selection: bool) -> (r: Option<Shortcut>)
    ensures
        r == spec_shortcut(keycode, modifiers, has_selection),
{
    let key = match keycode {
        Some(k) => k,
        None => return None,
    };
    let ctrl = modifiers.contains(Modifiers::control());
    let shift = modifiers.contains(Modifiers::shift());
    let alt = modifiers.contains(Modifiers::alt());
    if ctrl && shift {
        if key == keycode::ANSI_N || key == keycode::ANSI_T || key == keycode::ANSI_W || key
            == keycode::ANSI_C || key == keycode::ANSI_V || key == keycode::ANSI_A || key
            == keycode::ANSI_F || key == keycode::PAGE_UP || key == keycode::PAGE_DOWN || key
            == keycode::HOME || key == keycode::END {
            return Some(Shortcut::AsSuper(Modifiers::super_()));
        } else {
            return None;
        }
    }
    if ctrl {
        if key == keycode::ANSI_EQUAL || key == keycode::ANSI_MINUS {
            return Some(Shortcut::AsSuper(Modifiers::super_()));
        }
        if key == keycode::ANSI_V || key == keycode::ANSI_A {
            return Some(Shortcut::AsSuper(Modifiers::super_()));
        }
        if key == keycode::ANSI_C && has_selection {
            return Some(Shortcut::AsSuper(Modifiers::super_()));
        }
    }
    if alt {
        let is_digit = key == keycode::ANSI_1 || key == keycode::ANSI_2 || key == keycode::ANSI_3
            || key == keycode::ANSI_4 || key == keycode::ANSI_5 || key == keycode::ANSI_6 || key
            == keycode::ANSI_7 || key == keycode::ANSI_8 || key == keycode::ANSI_9;
        if is_digit {
            return Some(Shortcut::AsSuper(Modifiers::super_()));
        }
        if key == keycode::ANSI_LEFT_BRACKET || key == keycode::ANSI_RIGHT_BRACKET {
            return Some(Shortcut::AsSuper(Modifiers::super_().union(Modifiers::shift())));
        }
    }
    None
}

/// A Ctrl+click stands in for Cmd+click: Control is swapped for Super, the
/// other modifiers kept.
pub fn as_mouse_modifiers(modifiers: Modifiers) -> (m: Modifiers)
    ensures
        m == (if modifiers.control {
            Modifiers { control: false, super_key: true, ..modifiers }
        } else {
            modifiers
        }),
{
    if modifiers.contains(Modifiers::control()) {
        Modifiers { control: false, ..modifiers }.union(Modifiers::super_())
    } else {
        modifiers
    }
}


/// Whether a key press repeats, starts or ends.
#[derive(Debug, Clone, Copy, PartialEq, Eq, Structural)]
pub enum KeyEventType {
    Press,
    Repeat,
    Release,
}

/// Where the window layer sends a key event.
#[derive(Debug, Clone, Copy, PartialEq, Eq, Structural)]
pub enum KeyRoute {
    /// Nothing goes out (a composing IME owns the key, or it has no code).
    Ignore,
    /// The key's text goes out as committed text.
    Commit,
    /// The key goes out as a key with these modifiers.
    Key(Modifiers),
}

/// A control character (Unicode general category Cc), as `char::is_control`
/// tests it.
pub open spec fn spec_is_control(c: char) -> bool {
    (c as u32) < 0x20 || (0x7f <= (c as u32) && (c as u32) < 0xa0)
}

/// The route of a key event: while an IME composes, only the shortcuts get
/// through; a shortcut stands in its modifiers; a plain press whose text
/// holds no control character (and not in copy mode) is committed as text;
/// any other key with a code goes out as a key.
pub open spec fn spec_route_key(
    event_type: KeyEventType,
    keycode: Option<u16>,
    text: Option<Seq<char>>,
    modifiers: Modifiers,
    has_selection: bool,
    ime_composing: bool,
    copy_mode: bool,
) -> KeyRoute {
    let claimed = spec_shortcut(keycode, modifiers, has_selection);
    let mods = match claimed {
        Some(Shortcut::AsSuper(m)) => m,
        None => modifiers,
    };
    if ime_composing && claimed is None {
        KeyRoute::Ignore
    } else if event_type == KeyEventType::Press && !copy_mode && !mods.control && !mods.alt
        && !mods.super_key && (text matches Some(t) && (forall|i: int|
        0 <= i < t.len() ==> !spec_is_control(#[trigger] t[i]))) {
        KeyRoute::Commit
    } else if keycode is Some {
        KeyRoute::Key(mods)
    } else {
        KeyRoute::Ignore
    }
}

fn is_control(c: char) -> (b: bool)
    ensures
        b == spec_is_control(c),
{
    let u = c as u32;
    u < 0x20 || (0x7f <= u && u < 0xa0)
}

fn no_control_chars(t: &str) -> (b: bool)
    ensures
        b == (forall|i: int| 0 <= i < t@.len() ==> !spec_is_control(#[trigger] t@[i])),
{
    let n = t.unicode_len();
    let mut i: usize = 0;
    while i < n
        invariant
            i <= n == t@.len(),
            forall|j: int| 0 <= j < i ==> !spec_is_control(#[trigger] t@[j]),
        decreases n - i,
    {
        if is_control(t.get_char(i)) {
            return false;
        }
        i = i + 1;
    }
    true
}

/// Decides where a key event of the Linux window goes.
pub fn route_key(
    event_type: KeyEventType,
    keycode: Option<u16>,
    text: Option<&str>,
    modifiers: Modifiers,
    has_selection: bool,
    ime_composing: bool,
    copy_mode: bool,
) -> (r: KeyRoute)
    ensures
        r == spec_route_key(
            event_type,
            keycode,
            match text {
                Some(t) => Some(t@),
                None => None,
            },
            modifiers,
            has_selection,
            ime_composing,
            copy_mode,
        ),
{
    let claimed = shortcut(keycode, modifiers, has_selection);
    if ime_composing && claimed.is_none() {
        return KeyRoute::Ignore;
    }
    let mods = match claimed {
        Some(Shortcut::AsSuper(m)) => m,
        None => modifiers,
    };
    let plain = !mods.control && !mods.alt && !mods.super_key;
    let commit = match text {
        Some(t) => event_type == KeyEventType::Press && !copy_mode && plain && no_control_chars(t),
        None => false,
    };
    let ghost tv: Option<Seq<char>> = match text {
        Some(t) => Some(t@),
        None => None,
    };
    assert(commit == (event_type == KeyEventType::Press && !copy_mode && plain && (tv matches Some(
        tt,
    ) && (forall|i: int| 0 <= i < tt.len() ==> !spec_is_control(#[trigger] tt[i])))));
    if commit {
        KeyRoute::Commit
    } else if keycode.is_some() {
        KeyRoute::Key(mods)
    } else {
        KeyRoute::Ignore
    }
}

/// What the window hears from the input method.
pub enum ImeEvent {
    Enabled,
    Disabled,
    /// The text being composed (empty when composition ends).
    Preedit(String),
    /// Text the input method has finished.
    Commit(String),
}

/// Text input that the window hands on to the app.
pub enum TextEvent {
    /// Show this composition text in place of the cursor.
    Preedit(String),
    /// Send this text to the shell.
    TextCommit(String),
}

/// The window's answer to an input-method event: whether a composition is
/// now under way, and what goes on to the app.
pub struct ImeStep {
    pub composing: bool,
    pub events: Vec<TextEvent>,
}

/// The window's answer to `ime`: switching the input method on or off ends
/// any composition and sends nothing; a preedit is passed on, a composition
/// being under way while it is not empty; a commit ends the composition,
/// clears the preedit and then sends the text.
pub fn ime_step(ime: ImeEvent) -> (r: ImeStep)
    ensures
        match ime {
            ImeEvent::Enabled | ImeEvent::Disabled => !r.composing && r.events@.len() == 0,
            ImeEvent::Preedit(t) => {
                &&& r.composing == (t@.len() > 0)
                &&& r.events@.len() == 1
                &&& r.events@[0] matches TextEvent::Preedit(p) && p@ == t@
            },
            ImeEvent::Commit(t) => {
                &&& !r.composing
                &&& r.events@.len() == 2
                &&& r.events@[0] matches TextEvent::Preedit(p) && p@ == Seq::<char>::empty()
                &&& r.events@[1] matches TextEvent::TextCommit(c) && c@ == t@
            },
        },
{
    match ime {
        ImeEvent::Enabled | ImeEvent::Disabled => ImeStep { composing: false, events: Vec::new() },
        ImeEvent::Preedit(text) => {
            let composing = text.as_str().unicode_len() > 0;
            let mut events = Vec::new();
            events.push(TextEvent::Preedit(text));
            ImeStep { composing, events }
        },
        ImeEvent::Commit(text) => {
            let mut events = Vec::new();
            events.push(TextEvent::Preedit(String::new()));
            events.push(TextEvent::TextCommit(text));
            ImeStep { composing: false, events }
        },
    }
}

} // verus!
