//! The list of tabs and which one is active.
use vstd::prelude::*;
use crate::text::{decimal, push_char, push_decimal};

verus! {

/// The tabs, in order, and the index of the active one.
pub struct TabManager<T> {
    tabs: Vec<T>,
    active: usize,
}

/// Info passed to the renderer for drawing the tab bar.
pub struct TabBarInfo {
    pub titles: Vec<String>,
    pub active_index: usize,
}

/// The tab-bar title of the tab numbered `i` (from 1): "⌘i" for the nine
/// that have a shortcut, the bare number after that.
pub open spec fn tab_title(i: nat) -> Seq<char> {
    if i <= 9 {
        seq!['⌘'] + decimal(i)
    } else {
        decimal(i)
    }
}

/// The index after `active` among `n` tabs, wrapping to the first.
pub open spec fn next_index(active: int, n: int) -> int {
    if n == 0 {
        active
    } else {
        (active + 1) % n
    }
}

/// The index before `active` among `n` tabs, wrapping to the last.
pub open spec fn prev_index(active: int, n: int) -> int {
    if n == 0 {
        active
    } else if active == 0 {
        n - 1
    } else {
        active - 1
    }
}

/// Cycling forward then back, or back then forward, returns to the tab
/// one started from.
pub proof fn lemma_next_prev_inverse(active: int, n: int)
    requires
        0 <= active < n,
    ensures
        prev_index(next_index(active, n), n) == active,
        next_index(prev_index(active, n), n) == active,
{
    if active + 1 < n {
        assert((active + 1) % n == active + 1) by (nonlinear_arith)
            requires
                0 <= active + 1 < n,
        ;
    } else {
        assert((active + 1) % n == 0) by (nonlinear_arith)
            requires
                active + 1 == n,
                n > 0,
        ;
    }
    if active == 0 {
        assert((n - 1 + 1) % n == 0) by (nonlinear_arith)
            requires
                n > 0,
        ;
    } else {
        assert((active - 1 + 1) % n == active) by (nonlinear_arith)
            requires
                0 < active < n,
        ;
    }
}

impl<T> TabManager<T> {
    pub closed spec fn spec_tabs(&self) -> Seq<T> {
        self.tabs@
    }

    pub closed spec fn spec_active(&self) -> int {
        self.active as int
    }

    /// The active index names a tab whenever there is one.
    pub open spec fn wf(&self) -> bool {
        self.spec_tabs().len() > 0 ==> 0 <= self.spec_active() < self.spec_tabs().len()
    }

    pub fn new() -> (m: Self)
        ensures
            m.wf(),
            m.spec_tabs() == Seq::<T>::empty(),
            m.spec_active() == 0,
    {
        Self { tabs: Vec::new(), active: 0 }
    }

    /// Adds a tab at the end and makes it active.
    pub fn add_tab(&mut self, tab: T)
        requires
            old(self).spec_tabs().len() < usize::MAX,
        ensures
            final(self).wf(),
            final(self).spec_tabs() == old(self).spec_tabs().push(tab),
            final(self).spec_active() == old(self).spec_tabs().len(),
    {
        self.tabs.push(tab);
        self.active = self.tabs.len() - 1;
    }

    /// Removes the tab at `index`; the active tab stays the same tab when it
    /// survives, and otherwise the one now at its place (or the last).
    pub fn close_tab(&mut self, index: usize) -> (r: Option<T>)
        requires
            old(self).wf(),
        ensures
            final(self).wf(),
            index >= old(self).spec_tabs().len() ==> r is None && final(self).spec_tabs()
                == old(self).spec_tabs() && final(self).spec_active() == old(self).spec_active(),
            index < old(self).spec_tabs().len() ==> {
                let new_len = old(self).spec_tabs().len() - 1;
                &&& r == Some(old(self).spec_tabs()[index as int])
                &&& final(self).spec_tabs() == old(self).spec_tabs().remove(index as int)
                &&& final(self).spec_active() == (if new_len == 0 {
                    old(self).spec_active()
                } else if old(self).spec_active() >= new_len {
                    new_len - 1
                } else if old(self).spec_active() > index {
                    old(self).spec_active() - 1
                } else {
                    old(self).spec_active()
                })
            },
    {
        if index >= self.tabs.len() {
            return None;
        }
        let tab = self.tabs.remove(index);
        if self.tabs.len() == 0 {
        } else if self.active >= self.tabs.len() {
            self.active = self.tabs.len() - 1;
        } else if self.active > index {
            self.active -= 1;
        }
        Some(tab)
    }

    pub fn close_active(&mut self) -> (r: Option<T>)
        requires
            old(self).wf(),
        ensures
            final(self).wf(),
            old(self).spec_tabs().len() == 0 ==> r is None && final(self).spec_tabs()
                == old(self).spec_tabs() && final(self).spec_active() == old(self).spec_active(),
            old(self).spec_tabs().len() > 0 ==> {
                let new_len = old(self).spec_tabs().len() - 1;
                let a = old(self).spec_active();
                &&& r == Some(old(self).spec_tabs()[a])
                &&& final(self).spec_tabs() == old(self).spec_tabs().remove(a)
                &&& final(self).spec_active() == (if new_len == 0 || a < new_len {
                    a
                } else {
                    new_len - 1
                })
            },
    {
        let idx = self.active;
        self.close_tab(idx)
    }

    pub fn switch_to(&mut self, index: usize)
        requires
            old(self).wf(),
        ensures
            final(self).wf(),
            final(self).spec_tabs() == old(self).spec_tabs(),
            final(self).spec_active() == (if index < old(self).spec_tabs().len() {
                index as int
            } else {
                old(self).spec_active()
            }),
    {
        if index < self.tabs.len() {
            self.active = index;
        }
    }

    /// Activates the next tab, wrapping from the last to the first.
    pub fn next_tab(&mut self)
        requires
            old(self).wf(),
        ensures
            final(self).wf(),
            final(self).spec_tabs() == old(self).spec_tabs(),
            final(self).spec_active() == next_index(
                old(self).spec_active(),
                old(self).spec_tabs().len() as int,
            ),
    {
        if self.tabs.len() > 0 {
            self.active = (self.active + 1) % self.tabs.len();
        }
    }

    /// Activates the previous tab, wrapping from the first to the last.
    pub fn prev_tab(&mut self)
        requires
            old(self).wf(),
        ensures
            final(self).wf(),
            final(self).spec_tabs() == old(self).spec_tabs(),
            final(self).spec_active() == prev_index(
                old(self).spec_active(),
                old(self).spec_tabs().len() as int,
            ),
    {
        if self.tabs.len() > 0 {
            self.active = if self.active == 0 {
                self.tabs.len() - 1
            } else {
                self.active - 1
            };
        }
    }

    pub fn active_tab(&self) -> (r: Option<&T>)
        requires
            self.wf(),
        ensures
            self.spec_tabs().len() == 0 ==> r is None,
            self.spec_tabs().len() > 0 ==> r == Some(&self.spec_tabs()[self.spec_active()]),
    {
        if self.active < self.tabs.len() {
            Some(&self.tabs[self.active])
        } else {
            None
        }
    }

    pub fn active_tab_mut(&mut self) -> (r: Option<&mut T>)
        requires
            old(self).wf(),
        ensures
            old(self).spec_tabs().len() == 0 ==> r is None && final(self).spec_tabs() == old(
                self,
            ).spec_tabs(),
            old(self).spec_tabs().len() > 0 ==> r is Some && *r->0 == old(self).spec_tabs()[old(
                self,
            ).spec_active()] && final(self).spec_tabs() == old(self).spec_tabs().update(
                old(self).spec_active(),
                *final(r->0),
            ),
            final(self).spec_active() == old(self).spec_active(),
    {
        if self.active < self.tabs.len() {
            let tabs = self.tabs.as_mut_slice();
            Some(&mut tabs[self.active])
        } else {
            None
        }
    }

    pub fn active_index(&self) -> (i: usize)
        ensures
            i == self.spec_active(),
    {
        self.active
    }

    pub fn tab_count(&self) -> (n: usize)
        ensures
            n == self.spec_tabs().len(),
    {
        self.tabs.len()
    }

    pub fn is_empty(&self) -> (b: bool)
        ensures
            b == (self.spec_tabs().len() == 0),
    {
        self.tabs.len() == 0
    }

    pub fn tabs(&self) -> (s: &[T])
        ensures
            s@ == self.spec_tabs(),
    {
        self.tabs.as_slice()
    }

    pub fn tabs_mut(&mut self) -> (s: &mut [T])
        ensures
            s@ == old(self).spec_tabs(),
            final(s)@ == final(self).spec_tabs(),
            final(self).spec_active() == old(self).spec_active(),
    {
        self.tabs.as_mut_slice()
    }

    /// The tab bar shows once there is more than one tab.
    pub fn show_tab_bar(&self) -> (b: bool)
        ensures
            b == (self.spec_tabs().len() > 1),
    {
        self.tabs.len() > 1
    }

    /// Terminal rows adjusted for tab bar presence.
    pub fn term_rows(&self, total_rows: u16) -> (r: u16)
        ensures
            r == (if self.spec_tabs().len() > 1 {
                if total_rows >= 2 { (total_rows - 1) as u16 } else { 1u16 }
            } else {
                total_rows
            }),
    {
        if self.show_tab_bar() {
            let r = total_rows.saturating_sub(1);
            if r > 1 { r } else { 1 }
        } else {
            total_rows
        }
    }

    pub fn tab_bar_info(&self) -> (info: TabBarInfo)
        ensures
            info.active_index == self.spec_active(),
            info.titles@.len() == self.spec_tabs().len(),
            forall|k: int| 0 <= k < info.titles@.len() ==> #[trigger] info.titles@[k]@ == tab_title((k + 1) as nat),
    {
        let mut titles: Vec<String> = Vec::new();
        let n = self.tabs.len();
        let mut i: usize = 0;
        while i < n
            invariant
                i <= n,
                n == self.spec_tabs().len(),
                titles@.len() == i,
                forall|k: int| 0 <= k < titles@.len() ==> #[trigger] titles@[k]@ == tab_title((k + 1) as nat),
            decreases n - i,
        {
            let number = i + 1;
            let mut title = String::new();
            if number <= 9 {
                push_char(&mut title, '⌘');
            }
            push_decimal(&mut title, number as u64);
            assert(title@ == tab_title(number as nat));
            titles.push(title);
            i = i + 1;
        }
        TabBarInfo { titles, active_index: self.active }
    }
}

} // verus!
