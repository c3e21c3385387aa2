//! What the window's Command shortcuts do to the tabs, the selection, the
//! preedit and the view, leaving to the event loop only the work it does
//! outside: spawning a shell, resizing terminals, drawing and quitting.
use vstd::prelude::*;

use crate::commands::SuperCommand;
use crate::grid::Grid;
use crate::selection::Selection;
use crate::tab::{next_index, prev_index, TabManager};

verus! {

/// What the event loop still has to do after a tab command was carried out.
#[derive(Debug, Clone, Copy, PartialEq, Eq, Structural)]
pub enum TabFollowUp {
    /// Draw the frame again.
    Redraw,
    /// The tab bar went away: give the active tab the whole window, then
    /// draw the frame again.
    ExpandActive,
    /// The last tab is gone: the app quits.
    Quit,
    /// Nothing changed (a tab number with no tab behind it).
    Nothing,
}

/// Whether `cmd` is one that moves between or closes tabs.
pub open spec fn is_tab_command(cmd: SuperCommand) -> bool {
    match cmd {
        SuperCommand::CloseTab | SuperCommand::PrevTab | SuperCommand::NextTab | SuperCommand::SwitchTab(_) => true,
        _ => false,
    }
}

/// A selection with nothing in it.
pub open spec fn cleared_selection() -> Selection {
    Selection { start: (0u32, 0u16), end: (0u32, 0u16), active: false }
}

/// What `apply_tab_command` leaves behind and asks for: the tab list's
/// contents and active index, whether the selection and preedit were
/// cleared, and the follow-up.
pub open spec fn tab_command_result<T>(tabs: Seq<T>, active: int, cmd: SuperCommand) -> (
    Seq<T>,
    int,
    bool,
    TabFollowUp,
) {
    let n = tabs.len() as int;
    match cmd {
        SuperCommand::CloseTab => {
            if n == 0 {
                (tabs, active, false, TabFollowUp::Quit)
            } else {
                let left = tabs.remove(active);
                let new_active = if n - 1 == 0 || active < n - 1 { active } else { n - 2 };
                if n - 1 == 0 {
                    (left, new_active, false, TabFollowUp::Quit)
                } else if n == 2 {
                    (left, new_active, true, TabFollowUp::ExpandActive)
                } else {
                    (left, new_active, true, TabFollowUp::Redraw)
                }
            }
        },
        SuperCommand::PrevTab => (tabs, prev_index(active, n), true, TabFollowUp::Redraw),
        SuperCommand::NextTab => (tabs, next_index(active, n), true, TabFollowUp::Redraw),
        SuperCommand::SwitchTab(i) => {
            if i < n {
                (tabs, i as int, true, TabFollowUp::Redraw)
            } else {
                (tabs, active, false, TabFollowUp::Nothing)
            }
        },
        _ => (tabs, active, false, TabFollowUp::Nothing),
    }
}

/// Carries out a Command shortcut that moves between or closes tabs: the
/// previous or next tab (wrapping), the tab at an index that exists, or
/// closing the active tab. Moving to another tab, or closing one that
/// leaves others, clears the selection and the preedit. Closing the last
/// tab asks to quit; closing the next-to-last one asks for the remaining
/// tab to take the room of the tab bar.
pub fn apply_tab_command<T>(
    tabs: &mut TabManager<T>,
    sel: &mut Selection,
    preedit: &mut String,
    cmd: SuperCommand,
) -> (f: TabFollowUp)
    requires
        old(tabs).wf(),
        is_tab_command(cmd),
    ensures
        final(tabs).wf(),
        ({
            let (t, a, cleared, follow) = tab_command_result(old(tabs).spec_tabs(), old(tabs).spec_active(), cmd);
            &&& final(tabs).spec_tabs() == t
            &&& final(tabs).spec_active() == a
            &&& f == follow
            &&& cleared ==> *final(sel) == cleared_selection() && final(preedit)@ == Seq::<char>::empty()
            &&& !cleared ==> *final(sel) == *old(sel) && final(preedit)@ == old(preedit)@
        }),
{
    match cmd {
        SuperCommand::CloseTab => {
            let had_tab_bar = tabs.show_tab_bar();
            let _closed = tabs.close_active();
            if tabs.is_empty() {
                return TabFollowUp::Quit;
            }
            sel.clear();
            *preedit = String::new();
            if had_tab_bar && !tabs.show_tab_bar() {
                TabFollowUp::ExpandActive
            } else {
                TabFollowUp::Redraw
            }
        },
        SuperCommand::PrevTab => {
            tabs.prev_tab();
            sel.clear();
            *preedit = String::new();
            TabFollowUp::Redraw
        },
        SuperCommand::NextTab => {
            tabs.next_tab();
            sel.clear();
            *preedit = String::new();
            TabFollowUp::Redraw
        },
        SuperCommand::SwitchTab(idx) => {
            if idx < tabs.tab_count() {
                tabs.switch_to(idx);
                sel.clear();
                *preedit = String::new();
                TabFollowUp::Redraw
            } else {
                TabFollowUp::Nothing
            }
        },
        _ => TabFollowUp::Nothing,
    }
}

/// The rows a new tab's terminal gets out of `rows` window rows: one goes
/// to the tab bar, and at least one row is left.
pub fn new_tab_rows(rows: u16) -> (r: u16)
    ensures
        r == (if rows >= 2 { (rows - 1) as u16 } else { 1u16 }),
{
    let r = rows.saturating_sub(1);
    if r > 1 { r } else { 1 }
}

/// Adds a newly spawned tab and makes it active, clearing the selection and
/// the preedit. The result says whether the tab bar has just appeared, so
/// that the tabs already there must give it a row.
pub fn add_spawned_tab<T>(tabs: &mut TabManager<T>, tab: T, sel: &mut Selection, preedit: &mut String) -> (bar_appeared: bool)
    requires
        old(tabs).spec_tabs().len() < usize::MAX,
    ensures
        final(tabs).wf(),
        final(tabs).spec_tabs() == old(tabs).spec_tabs().push(tab),
        final(tabs).spec_active() == old(tabs).spec_tabs().len(),
        *final(sel) == cleared_selection(),
        final(preedit)@ == Seq::<char>::empty(),
        bar_appeared == (old(tabs).spec_tabs().len() == 1),
{
    let had_no_tab_bar = !tabs.show_tab_bar();
    tabs.add_tab(tab);
    sel.clear();
    *preedit = String::new();
    had_no_tab_bar && tabs.show_tab_bar()
}

/// Scrolls the view of `grid` a screen's height back (`up`) or forward.
pub fn scroll_page(grid: &mut Grid, up: bool)
    requires
        old(grid)@.wf(),
    ensures
        final(grid)@ == (if up {
            old(grid)@.scroll_view_up(old(grid)@.rows)
        } else {
            old(grid)@.scroll_view_down(old(grid)@.rows)
        }),
{
    let rows = grid.cells().len();
    if up {
        grid.scroll_up_view(rows);
    } else {
        grid.scroll_down_view(rows);
    }
}

} // verus!
