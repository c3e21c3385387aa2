//! Key bindings of copy mode: which configured key names trigger which action.
use std::collections::HashMap;
use vstd::prelude::*;

use crate::keycode::{char_to_keycode, spec_char_to_keycode};

verus! {

broadcast use vstd::std_specs::hash::group_hash_axioms;

/// What a key does while copy mode is on.
#[derive(Debug, Clone, Copy, PartialEq, Eq, Structural)]
pub enum CopyModeAction {
    Down,
    Up,
    Visual,
    HalfPageDown,
    HalfPageUp,
    Yank,
    OpenUrl,
    Exit,
}

/// The key names bound to each copy-mode action, as the configuration
/// lists them.
#[derive(Debug, Clone, PartialEq, Eq)]
pub struct CopyModeKeys {
    pub down: Vec<String>,
    pub up: Vec<String>,
    pub visual: Vec<String>,
    pub half_page_down: Vec<String>,
    pub half_page_up: Vec<String>,
    pub yank: Vec<String>,
    pub open_url: Vec<String>,
    pub exit: Vec<String>,
}

/// The characters of each name in a list of key names.
pub open spec fn names(v: Vec<String>) -> Seq<Seq<char>> {
    v@.map_values(|s: String| s@)
}

/// `m` after binding every name of `ns` that names a key to `action`, in
/// order (a later binding of the same key wins).
pub open spec fn insert_names(
    m: Map<u16, CopyModeAction>,
    ns: Seq<Seq<char>>,
    action: CopyModeAction,
) -> Map<u16, CopyModeAction>
    decreases ns.len(),
{
    if ns.len() == 0 {
        m
    } else {
        let prev = insert_names(m, ns.drop_last(), action);
        match spec_char_to_keycode(ns.last()) {
            Some(k) => prev.insert(k, action),
            None => prev,
        }
    }
}

/// The key-code map that the bindings describe: the actions in the order
/// down, up, visual, half-page down, half-page up, yank, open URL, exit,
/// so that a key listed for two actions does the later one.
pub open spec fn spec_action_map(k: CopyModeKeys) -> Map<u16, CopyModeAction> {
    let m0 = Map::<u16, CopyModeAction>::empty();
    let m1 = insert_names(m0, names(k.down), CopyModeAction::Down);
    let m2 = insert_names(m1, names(k.up), CopyModeAction::Up);
    let m3 = insert_names(m2, names(k.visual), CopyModeAction::Visual);
    let m4 = insert_names(m3, names(k.half_page_down), CopyModeAction::HalfPageDown);
    let m5 = insert_names(m4, names(k.half_page_up), CopyModeAction::HalfPageUp);
    let m6 = insert_names(m5, names(k.yank), CopyModeAction::Yank);
    let m7 = insert_names(m6, names(k.open_url), CopyModeAction::OpenUrl);
    insert_names(m7, names(k.exit), CopyModeAction::Exit)
}

/// A list of key names made of the given single strings.
fn key_list(a: &str) -> (v: Vec<String>)
    ensures
        names(v) == seq![a@],
{
    let v = vec![a.to_owned()];
    assert(names(v) =~= seq![a@]);
    v
}

impl Default for CopyModeKeys {
    /// The vi-like bindings: `j` `k` `v`, `h`/`d` and `l`/`u` for half pages,
    /// `y`, `o`, and `q`, Escape or backquote to leave.
    fn default() -> (k: Self)
        ensures
            names(k.down) == seq!["j"@],
            names(k.up) == seq!["k"@],
            names(k.visual) == seq!["v"@],
            names(k.half_page_down) == seq!["h"@, "d"@],
            names(k.half_page_up) == seq!["l"@, "u"@],
            names(k.yank) == seq!["y"@],
            names(k.open_url) == seq!["o"@],
            names(k.exit) == seq!["q"@, "Escape"@, "`"@],
    {
        let half_page_down = vec!["h".to_owned(), "d".to_owned()];
        let half_page_up = vec!["l".to_owned(), "u".to_owned()];
        let exit = vec!["q".to_owned(), "Escape".to_owned(), "`".to_owned()];
        assert(names(half_page_down) =~= seq!["h"@, "d"@]);
        assert(names(half_page_up) =~= seq!["l"@, "u"@]);
        assert(names(exit) =~= seq!["q"@, "Escape"@, "`"@]);
        CopyModeKeys {
            down: key_list("j"),
            up: key_list("k"),
            visual: key_list("v"),
            half_page_down,
            half_page_up,
            yank: key_list("y"),
            open_url: key_list("o"),
            exit,
        }
    }
}

/// Binds every name of `list` that names a key to `action`, in order.
fn insert_bindings(map: &mut HashMap<u16, CopyModeAction>, list: &Vec<String>, action: CopyModeAction)
    ensures
        final(map)@ == insert_names(old(map)@, names(*list), action),
{
    let ghost start = map@;
    let mut i: usize = 0;
    while i < list.len()
        invariant
            i <= list.len(),
            map@ == insert_names(start, names(*list).take(i as int), action),
        decreases list.len() - i,
    {
        let code = char_to_keycode(list[i].as_str());
        proof {
            let ns = names(*list);
            assert(ns.take(i + 1).drop_last() =~= ns.take(i as int));
            assert(ns.take(i + 1).last() == list@[i as int]@);
        }
        if let Some(k) = code {
            map.insert(k, action);
        }
        i = i + 1;
    }
    assert(names(*list).take(list.len() as int) =~= names(*list));
}

impl CopyModeKeys {
    /// The map from key code to copy-mode action. Names that name no key are
    /// left out; a key listed for two actions does the later one.
    pub fn build_action_map(&self) -> (map: HashMap<u16, CopyModeAction>)
        ensures
            map@ == spec_action_map(*self),
    {
        let mut map = HashMap::new();
        insert_bindings(&mut map, &self.down, CopyModeAction::Down);
        insert_bindings(&mut map, &self.up, CopyModeAction::Up);
        insert_bindings(&mut map, &self.visual, CopyModeAction::Visual);
        insert_bindings(&mut map, &self.half_page_down, CopyModeAction::HalfPageDown);
        insert_bindings(&mut map, &self.half_page_up, CopyModeAction::HalfPageUp);
        insert_bindings(&mut map, &self.yank, CopyModeAction::Yank);
        insert_bindings(&mut map, &self.open_url, CopyModeAction::OpenUrl);
        insert_bindings(&mut map, &self.exit, CopyModeAction::Exit);
        map
    }
}

} // verus!
