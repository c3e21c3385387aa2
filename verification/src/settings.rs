//! The rules of the configuration that do not depend on its file format:
//! which settings a menu may flip, how the settings of older versions are
//! carried over, and telling when the file changed.
use vstd::prelude::*;

use crate::text::{spec_is_whitespace, trim_end, trim_start};
use crate::grid_dump::str_chars;

verus! {

/// A setting the desktop's menu can flip.
#[derive(Debug, Clone, Copy, PartialEq, Eq, Structural)]
pub enum Setting {
    Pomodoro,
    Coaching,
    ResponseTimer,
    TransparentTabBar,
}

/// The setting a menu entry names: "pomodoro", "coaching", "response-timer"
/// or "transparent-tab-bar"; none for any other name.
pub open spec fn spec_setting_named(name: Seq<char>) -> Option<Setting> {
    if name == seq!['p', 'o', 'm', 'o', 'd', 'o', 'r', 'o'] {
        Some(Setting::Pomodoro)
    } else if name == seq!['c', 'o', 'a', 'c', 'h', 'i', 'n', 'g'] {
        Some(Setting::Coaching)
    } else if name == seq!['r', 'e', 's', 'p', 'o', 'n', 's', 'e', '-', 't', 'i', 'm', 'e', 'r'] {
        Some(Setting::ResponseTimer)
    } else if name == seq![
        't', 'r', 'a', 'n', 's', 'p', 'a', 'r', 'e', 'n', 't', '-', 't', 'a', 'b', '-', 'b', 'a', 'r',
    ] {
        Some(Setting::TransparentTabBar)
    } else {
        None
    }
}

fn chars_are(v: &Vec<char>, t: &[char]) -> (b: bool)
    ensures
        b == (v@ == t@),
{
    if v.len() != t.len() {
        return false;
    }
    let mut i: usize = 0;
    while i < v.len()
        invariant
            i <= v.len() == t@.len(),
            forall|j: int| 0 <= j < i ==> v@[j] == t@[j],
        decreases v.len() - i,
    {
        if v[i] != t[i] {
            return false;
        }
        i = i + 1;
    }
    assert(v@ =~= t@);
    true
}

/// The setting a menu entry names. Unknown names are refused, so a typo in
/// the menu shows up.
pub fn setting_named(name: &str) -> (s: Option<Setting>)
    ensures
        s == spec_setting_named(name@),
{
    let v = str_chars(name);
    let pomodoro: [char; 8] = ['p', 'o', 'm', 'o', 'd', 'o', 'r', 'o'];
    let coaching: [char; 8] = ['c', 'o', 'a', 'c', 'h', 'i', 'n', 'g'];
    let response_timer: [char; 14] = ['r', 'e', 's', 'p', 'o', 'n', 's', 'e', '-', 't', 'i', 'm', 'e', 'r'];
    let transparent: [char; 19] = [
        't', 'r', 'a', 'n', 's', 'p', 'a', 'r', 'e', 'n', 't', '-', 't', 'a', 'b', '-', 'b', 'a', 'r',
    ];
    if chars_are(&v, &pomodoro) {
        Some(Setting::Pomodoro)
    } else if chars_are(&v, &coaching) {
        Some(Setting::Coaching)
    } else if chars_are(&v, &response_timer) {
        Some(Setting::ResponseTimer)
    } else if chars_are(&v, &transparent) {
        Some(Setting::TransparentTabBar)
    } else {
        None
    }
}

/// The four settings the desktop's menu can flip.
#[derive(Debug, Clone, Copy, PartialEq, Eq, Structural)]
pub struct MenuSettings {
    pub pomodoro: bool,
    pub coaching: bool,
    pub response_timer: bool,
    pub transparent_tab_bar: bool,
}

/// `m` with `setting` flipped.
pub open spec fn flipped(m: MenuSettings, setting: Setting) -> MenuSettings {
    match setting {
        Setting::Pomodoro => MenuSettings { pomodoro: !m.pomodoro, ..m },
        Setting::Coaching => MenuSettings { coaching: !m.coaching, ..m },
        Setting::ResponseTimer => MenuSettings { response_timer: !m.response_timer, ..m },
        Setting::TransparentTabBar => MenuSettings { transparent_tab_bar: !m.transparent_tab_bar, ..m },
    }
}

impl MenuSettings {
    /// Flips the setting a menu entry names and says so; an unknown name is
    /// refused and changes nothing.
    pub fn toggle(&mut self, name: &str) -> (known: bool)
        ensures
            known == spec_setting_named(name@) is Some,
            *final(self) == match spec_setting_named(name@) {
                Some(setting) => flipped(*old(self), setting),
                None => *old(self),
            },
    {
        match setting_named(name) {
            Some(Setting::Pomodoro) => self.pomodoro = !self.pomodoro,
            Some(Setting::Coaching) => self.coaching = !self.coaching,
            Some(Setting::ResponseTimer) => self.response_timer = !self.response_timer,
            Some(Setting::TransparentTabBar) => self.transparent_tab_bar = !self.transparent_tab_bar,
            None => return false,
        }
        true
    }
}

/// Flipping the same setting twice leaves the settings as they were.
pub proof fn lemma_toggle_twice_restores(m: MenuSettings, setting: Setting)
    ensures
        flipped(flipped(m, setting), setting) == m,
{
}

/// `s` with white space trimmed at both ends.
pub open spec fn trim(s: Seq<char>) -> Seq<char> {
    trim_end(trim_start(s))
}

/// A setting of the old one-file-per-setting layout: a missing file keeps
/// the default; a setting on by default is off only when the file says `0`,
/// one off by default is on only when it says `1` (white space around
/// ignored).
pub open spec fn spec_legacy_flag(contents: Option<Seq<char>>, default: bool) -> bool {
    match contents {
        None => default,
        Some(s) => if default {
            trim(s) != seq!['0']
        } else {
            trim(s) == seq!['1']
        },
    }
}

fn trimmed_range(v: &Vec<char>) -> (r: (usize, usize))
    ensures
        r.0 <= r.1 <= v.len(),
        v@.subrange(r.0 as int, r.1 as int) == trim(v@),
{
    let mut a: usize = 0;
    assert(v@.skip(0) =~= v@);
    while a < v.len() && crate::text::is_whitespace(v[a])
        invariant
            a <= v.len(),
            trim_start(v@.skip(a as int)) == trim_start(v@),
        decreases v.len() - a,
    {
        assert(v@.skip(a as int).drop_first() =~= v@.skip(a + 1));
        a = a + 1;
    }
    proof {
        if a < v.len() {
            assert(!spec_is_whitespace(v@.skip(a as int)[0]));
        }
        assert(trim_start(v@.skip(a as int)) == v@.skip(a as int));
    }
    let mut b: usize = v.len();
    assert(v@.subrange(a as int, b as int) =~= v@.skip(a as int));
    while b > a && crate::text::is_whitespace(v[b - 1])
        invariant
            a <= b <= v.len(),
            trim_end(v@.subrange(a as int, b as int)) == trim(v@),
        decreases b,
    {
        assert(v@.subrange(a as int, b as int).drop_last() =~= v@.subrange(a as int, b - 1));
        b = b - 1;
    }
    (a, b)
}

/// Reads a setting of the old layout from its file's contents (none when
/// the file is missing).
pub fn legacy_flag(contents: Option<&str>, default: bool) -> (b: bool)
    ensures
        contents is None ==> b == spec_legacy_flag(None, default),
        contents matches Some(s) ==> b == spec_legacy_flag(Some(s@), default),
{
    match contents {
        None => default,
        Some(s) => {
            let v = str_chars(s);
            let (a, e) = trimmed_range(&v);
            let single = e - a == 1;
            let c = if single {
                v[a]
            } else {
                ' '
            };
            proof {
                assert(trim(s@).len() == e - a);
                if single {
                    assert(trim(s@) =~= seq![c]);
                    assert(seq![c][0] == c);
                    assert(seq!['0'][0] == '0');
                    assert(seq!['1'][0] == '1');
                    assert((trim(s@) == seq!['0']) == (c == '0'));
                    assert((trim(s@) == seq!['1']) == (c == '1'));
                } else {
                    assert(trim(s@) != seq!['0']);
                    assert(trim(s@) != seq!['1']);
                }
            }
            if default {
                !(single && c == '0')
            } else {
                single && c == '1'
            }
        },
    }
}

/// A pomodoro duration once written in minutes: when the file has no
/// seconds key for it and a non-negative whole number of minutes, that many
/// minutes in seconds; otherwise `current`.
pub open spec fn spec_legacy_seconds(seconds_present: bool, minutes: Option<i64>, current: u64) -> u64 {
    match minutes {
        Some(m) => if !seconds_present && m >= 0 {
            (m * 60) as u64
        } else {
            current
        },
        None => current,
    }
}

pub fn legacy_seconds(seconds_present: bool, minutes: Option<i64>, current: u64) -> (s: u64)
    requires
        minutes matches Some(m) ==> (!seconds_present && m >= 0 ==> m * 60 <= u64::MAX),
    ensures
        s == spec_legacy_seconds(seconds_present, minutes, current),
{
    match minutes {
        Some(m) => {
            if !seconds_present && m >= 0 {
                (m as u64) * 60
            } else {
                current
            }
        },
        None => current,
    }
}

/// Whether the top-level table of the TOML document `contents` has `key`,
/// and the key's value when that is an integer. A text that is no TOML
/// document has no keys.
pub uninterp spec fn toml_top_key(contents: Seq<char>, key: Seq<char>) -> (bool, Option<i64>);

/// `contents.parse::<toml::Value>()`, then `Value::get(key)` and
/// `Value::as_integer`: whether the document's top-level table holds `key`,
/// and its value when it is an integer (`(false, None)` when the text does
/// not parse). An integer value is only found under a key that is there.
#[verifier::external_body]
fn toml_top_key_of(contents: &str, key: &str) -> (r: (bool, Option<i64>))
    ensures
        r == toml_top_key(contents@, key@),
        r.1 is Some ==> r.0,
{
    match contents.parse::<toml::Value>() {
        Ok(value) => match value.get(key) {
            Some(v) => (true, v.as_integer()),
            None => (false, None),
        },
        Err(_) => (false, None),
    }
}

/// Whether carrying `minutes` over (its seconds key being absent or not as
/// `seconds_present` says) would not fit in `u64` seconds.
pub open spec fn minutes_overflow(seconds_present: bool, minutes: Option<i64>) -> bool {
    minutes matches Some(m) && !seconds_present && m >= 0 && m * 60 > u64::MAX
}

/// The pomodoro work and break durations after carrying over the minutes
/// keys of an older configuration text `contents`: each duration whose
/// seconds key is missing and whose minutes key holds a non-negative
/// integer becomes that many minutes; the others stay as given. `None` when
/// such a minutes value is too large for `u64` seconds.
pub fn adopt_legacy_minutes(contents: &str, work_seconds: u64, break_seconds: u64) -> (r: Option<(u64, u64)>)
    ensures
        r is None <==> (minutes_overflow(
            toml_top_key(contents@, "pomodoro_work_seconds"@).0,
            toml_top_key(contents@, "pomodoro_work_minutes"@).1,
        ) || minutes_overflow(
            toml_top_key(contents@, "pomodoro_break_seconds"@).0,
            toml_top_key(contents@, "pomodoro_break_minutes"@).1,
        )),
        r matches Some((w, b)) ==> w == spec_legacy_seconds(
            toml_top_key(contents@, "pomodoro_work_seconds"@).0,
            toml_top_key(contents@, "pomodoro_work_minutes"@).1,
            work_seconds,
        ) && b == spec_legacy_seconds(
            toml_top_key(contents@, "pomodoro_break_seconds"@).0,
            toml_top_key(contents@, "pomodoro_break_minutes"@).1,
            break_seconds,
        ),
{
    let (work_set, _) = toml_top_key_of(contents, "pomodoro_work_seconds");
    let (_, work_minutes) = toml_top_key_of(contents, "pomodoro_work_minutes");
    let (break_set, _) = toml_top_key_of(contents, "pomodoro_break_seconds");
    let (_, break_minutes) = toml_top_key_of(contents, "pomodoro_break_minutes");
    if let Some(m) = work_minutes {
        if !work_set && m >= 0 && m > (u64::MAX / 60) as i64 {
            return None;
        }
    }
    if let Some(m) = break_minutes {
        if !break_set && m >= 0 && m > (u64::MAX / 60) as i64 {
            return None;
        }
    }
    let w = legacy_seconds(work_set, work_minutes, work_seconds);
    let b = legacy_seconds(break_set, break_minutes, break_seconds);
    Some((w, b))
}

/// When the configuration file was last modified, as seconds and
/// nanoseconds of the system clock; none when it cannot be read.
pub type Modified = Option<(u64, u32)>;

/// Remembers when the configuration file last changed, so a poll can tell.
pub struct ConfigWatch {
    pub seen: Modified,
}

/// One poll: whether the file changed since `seen`, and the time to
/// remember afterwards.
pub open spec fn poll(seen: Modified, now: Modified) -> (bool, Modified) {
    (now != seen, now)
}

impl ConfigWatch {
    /// Starts watching from the file's current modification time.
    pub fn new(seen: Modified) -> (w: Self)
        ensures
            w.seen == seen,
    {
        ConfigWatch { seen }
    }

    /// True the first time a poll sees another modification time than the
    /// last one; it is then remembered.
    pub fn changed(&mut self, now: Modified) -> (c: bool)
        ensures
            (c, final(self).seen) == poll(old(self).seen, now),
    {
        let same = match (now, self.seen) {
            (None, None) => true,
            (Some(a), Some(b)) => a.0 == b.0 && a.1 == b.1,
            _ => false,
        };
        if same {
            return false;
        }
        self.seen = now;
        true
    }
}

/// A change is reported once: a second poll that sees the same time as the
/// one before reports nothing.
pub proof fn lemma_change_reported_once(seen: Modified, now: Modified)
    ensures
        !poll(poll(seen, now).1, now).0,
{
}

} // verus!
