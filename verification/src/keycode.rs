//! macOS virtual key codes (Carbon `kVK_` constants), which the Linux window
//! layer maps physical keys onto too, and the key names of the configuration.
use vstd::prelude::*;

verus! {

pub const ANSI_A: u16 = 0x00;
pub const ANSI_S: u16 = 0x01;
pub const ANSI_D: u16 = 0x02;
pub const ANSI_F: u16 = 0x03;
pub const ANSI_H: u16 = 0x04;
pub const ANSI_G: u16 = 0x05;
pub const ANSI_Z: u16 = 0x06;
pub const ANSI_X: u16 = 0x07;
pub const ANSI_C: u16 = 0x08;
pub const ANSI_V: u16 = 0x09;
pub const ANSI_B: u16 = 0x0B;
pub const ANSI_Q: u16 = 0x0C;
pub const ANSI_W: u16 = 0x0D;
pub const ANSI_E: u16 = 0x0E;
pub const ANSI_R: u16 = 0x0F;
pub const ANSI_Y: u16 = 0x10;
pub const ANSI_T: u16 = 0x11;
pub const ANSI_1: u16 = 0x12;
pub const ANSI_2: u16 = 0x13;
pub const ANSI_3: u16 = 0x14;
pub const ANSI_4: u16 = 0x15;
pub const ANSI_6: u16 = 0x16;
pub const ANSI_5: u16 = 0x17;
pub const ANSI_EQUAL: u16 = 0x18;
pub const ANSI_9: u16 = 0x19;
pub const ANSI_7: u16 = 0x1A;
pub const ANSI_MINUS: u16 = 0x1B;
pub const ANSI_8: u16 = 0x1C;
pub const ANSI_0: u16 = 0x1D;
pub const ANSI_RIGHT_BRACKET: u16 = 0x1E;
pub const ANSI_O: u16 = 0x1F;
pub const ANSI_U: u16 = 0x20;
pub const ANSI_LEFT_BRACKET: u16 = 0x21;
pub const ANSI_I: u16 = 0x22;
pub const ANSI_P: u16 = 0x23;
pub const RETURN: u16 = 0x24;
pub const ANSI_L: u16 = 0x25;
pub const ANSI_J: u16 = 0x26;
pub const ANSI_QUOTE: u16 = 0x27;
pub const ANSI_K: u16 = 0x28;
pub const ANSI_SEMICOLON: u16 = 0x29;
pub const ANSI_BACKSLASH: u16 = 0x2A;
pub const ANSI_COMMA: u16 = 0x2B;
pub const ANSI_SLASH: u16 = 0x2C;
pub const ANSI_N: u16 = 0x2D;
pub const ANSI_M: u16 = 0x2E;
pub const ANSI_PERIOD: u16 = 0x2F;
pub const TAB: u16 = 0x30;
pub const SPACE: u16 = 0x31;
pub const ANSI_GRAVE: u16 = 0x32;
pub const DELETE: u16 = 0x33;
pub const ESCAPE: u16 = 0x35;
pub const HOME: u16 = 0x73;
pub const PAGE_UP: u16 = 0x74;
pub const FORWARD_DELETE: u16 = 0x75;
pub const END: u16 = 0x77;
pub const PAGE_DOWN: u16 = 0x79;
pub const LEFT_ARROW: u16 = 0x7B;
pub const RIGHT_ARROW: u16 = 0x7C;
pub const DOWN_ARROW: u16 = 0x7D;
pub const UP_ARROW: u16 = 0x7E;

/// The key code of the key that types `c` (lower-case letters, digits and
/// the unshifted punctuation of a US layout).
pub open spec fn spec_char_keycode(c: char) -> Option<u16> {
    let t = char_key_table();
    if exists|k: int| 0 <= k < t.len() && t[k].0 == c {
        Some(t[choose|k: int| 0 <= k < t.len() && t[k].0 == c].1)
    } else {
        None
    }
}

/// The characters that name a key by themselves, with their key codes.
pub open spec fn char_key_table() -> Seq<(char, u16)> {
    seq![
        ('a', 0x00u16), ('s', 0x01u16), ('d', 0x02u16), ('f', 0x03u16), ('h', 0x04u16),
        ('g', 0x05u16), ('z', 0x06u16), ('x', 0x07u16), ('c', 0x08u16), ('v', 0x09u16),
        ('b', 0x0Bu16), ('q', 0x0Cu16), ('w', 0x0Du16), ('e', 0x0Eu16), ('r', 0x0Fu16),
        ('y', 0x10u16), ('t', 0x11u16), ('1', 0x12u16), ('2', 0x13u16), ('3', 0x14u16),
        ('4', 0x15u16), ('6', 0x16u16), ('5', 0x17u16), ('=', 0x18u16), ('9', 0x19u16),
        ('7', 0x1Au16), ('-', 0x1Bu16), ('8', 0x1Cu16), ('0', 0x1Du16), (']', 0x1Eu16),
        ('o', 0x1Fu16), ('u', 0x20u16), ('[', 0x21u16), ('i', 0x22u16), ('p', 0x23u16),
        ('l', 0x25u16), ('j', 0x26u16), ('\'', 0x27u16), ('k', 0x28u16), (';', 0x29u16),
        ('\\', 0x2Au16), (',', 0x2Bu16), ('/', 0x2Cu16), ('n', 0x2Du16), ('m', 0x2Eu16),
        ('.', 0x2Fu16), ('`', 0x32u16),
    ]
}

/// The key code for a key named in the configuration: a single character
/// (as `spec_char_keycode`), or one of "Escape", "Enter", "Tab", "Space"
/// and "Backspace".
pub open spec fn spec_char_to_keycode(name: Seq<char>) -> Option<u16> {
    if name.len() == 1 {
        spec_char_keycode(name[0])
    } else if name == seq!['E', 's', 'c', 'a', 'p', 'e'] {
        Some(ESCAPE)
    } else if name == seq!['E', 'n', 't', 'e', 'r'] {
        Some(RETURN)
    } else if name == seq!['T', 'a', 'b'] {
        Some(TAB)
    } else if name == seq!['S', 'p', 'a', 'c', 'e'] {
        Some(SPACE)
    } else if name == seq!['B', 'a', 'c', 'k', 's', 'p', 'a', 'c', 'e'] {
        Some(DELETE)
    } else {
        None
    }
}

/// The characters of the key table, each once.
proof fn lemma_char_key_table_distinct()
    ensures
        forall|i: int, j: int|
            0 <= i < j < char_key_table().len() ==> #[trigger] char_key_table()[i].0 != #[trigger] char_key_table()[j].0,
{
    let t = char_key_table();
    assert forall|i: int, j: int| 0 <= i < j < t.len() implies #[trigger] t[i].0 != #[trigger] t[j].0 by {
        assert(t.len() == 47);
    }
}

fn char_keycode(c: char) -> (r: Option<u16>)
    ensures
        r == spec_char_keycode(c),
{
    let t: [(char, u16); 47] = [
        ('a', 0x00u16), ('s', 0x01u16), ('d', 0x02u16), ('f', 0x03u16), ('h', 0x04u16),
        ('g', 0x05u16), ('z', 0x06u16), ('x', 0x07u16), ('c', 0x08u16), ('v', 0x09u16),
        ('b', 0x0Bu16), ('q', 0x0Cu16), ('w', 0x0Du16), ('e', 0x0Eu16), ('r', 0x0Fu16),
        ('y', 0x10u16), ('t', 0x11u16), ('1', 0x12u16), ('2', 0x13u16), ('3', 0x14u16),
        ('4', 0x15u16), ('6', 0x16u16), ('5', 0x17u16), ('=', 0x18u16), ('9', 0x19u16),
        ('7', 0x1Au16), ('-', 0x1Bu16), ('8', 0x1Cu16), ('0', 0x1Du16), (']', 0x1Eu16),
        ('o', 0x1Fu16), ('u', 0x20u16), ('[', 0x21u16), ('i', 0x22u16), ('p', 0x23u16),
        ('l', 0x25u16), ('j', 0x26u16), ('\'', 0x27u16), ('k', 0x28u16), (';', 0x29u16),
        ('\\', 0x2Au16), (',', 0x2Bu16), ('/', 0x2Cu16), ('n', 0x2Du16), ('m', 0x2Eu16),
        ('.', 0x2Fu16), ('`', 0x32u16),
    ];
    assert(t@ == char_key_table());
    let mut k: usize = 0;
    while k < 47
        invariant
            k <= 47,
            t@ == char_key_table(),
            forall|j: int| 0 <= j < k ==> char_key_table()[j].0 != c,
        decreases 47 - k,
    {
        if t[k].0 == c {
            proof {
                lemma_char_key_table_distinct();
                let w = choose|j: int| 0 <= j < char_key_table().len() && char_key_table()[j].0 == c;
                assert(w == k) by {
                    if w < k {
                    } else if w > k {
                        assert(char_key_table()[k as int].0 != char_key_table()[w].0);
                    }
                }
            }
            return Some(t[k].1);
        }
        k = k + 1;
    }
    None
}

/// Whether the characters of `s` are those of `t`.
fn str_is(s: &str, t: &[char]) -> (b: bool)
    ensures
        b == (s@ == t@),
{
    let n = s.unicode_len();
    if n != t.len() {
        return false;
    }
    let mut i: usize = 0;
    while i < n
        invariant
            i <= n == s@.len() == t@.len(),
            forall|j: int| 0 <= j < i ==> s@[j] == t@[j],
        decreases n - i,
    {
        if s.get_char(i) != t[i] {
            return false;
        }
        i = i + 1;
    }
    assert(s@ =~= t@);
    true
}

/// The key code for a key named in the configuration.
pub fn char_to_keycode(name: &str) -> (r: Option<u16>)
    ensures
        r == spec_char_to_keycode(name@),
{
    if name.unicode_len() == 1 {
        return char_keycode(name.get_char(0));
    }
    let escape: [char; 6] = ['E', 's', 'c', 'a', 'p', 'e'];
    let enter: [char; 5] = ['E', 'n', 't', 'e', 'r'];
    let tab: [char; 3] = ['T', 'a', 'b'];
    let space: [char; 5] = ['S', 'p', 'a', 'c', 'e'];
    let backspace: [char; 9] = ['B', 'a', 'c', 'k', 's', 'p', 'a', 'c', 'e'];
    if str_is(name, &escape) {
        Some(ESCAPE)
    } else if str_is(name, &enter) {
        Some(RETURN)
    } else if str_is(name, &tab) {
        Some(TAB)
    } else if str_is(name, &space) {
        Some(SPACE)
    } else if str_is(name, &backspace) {
        Some(DELETE)
    } else {
        None
    }
}

} // verus!
