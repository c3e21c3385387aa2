use growterm::commands::SuperCommand;
use growterm::grid::Grid;
use growterm::selection::Selection;
use growterm::tab::TabManager;
use growterm::tab_commands::{add_spawned_tab, apply_tab_command, new_tab_rows, scroll_page, TabFollowUp};
use growterm::types::TerminalCommand;

fn selected() -> Selection {
    let mut sel = Selection::default();
    sel.begin(1, 2);
    sel.update(3, 4);
    sel
}

#[test]
fn the_second_tab_brings_the_tab_bar() {
    let mut tabs: TabManager<u32> = TabManager::new();
    let mut sel = selected();
    let mut preedit = String::from("ㅎ");
    assert!(!add_spawned_tab(&mut tabs, 1, &mut sel, &mut preedit));
    assert!(sel.is_empty());
    assert!(preedit.is_empty());
    assert!(add_spawned_tab(&mut tabs, 2, &mut sel, &mut preedit));
    assert!(!add_spawned_tab(&mut tabs, 3, &mut sel, &mut preedit));
    assert_eq!(tabs.active_index(), 2);
    assert_eq!(new_tab_rows(24), 23);
    assert_eq!(new_tab_rows(1), 1);
    assert_eq!(new_tab_rows(0), 1);
}

#[test]
fn switching_tabs_clears_selection_and_preedit() {
    let mut tabs: TabManager<u32> = TabManager::new();
    tabs.add_tab(1);
    tabs.add_tab(2);
    let mut sel = selected();
    let mut preedit = String::from("가");
    assert_eq!(apply_tab_command(&mut tabs, &mut sel, &mut preedit, SuperCommand::NextTab), TabFollowUp::Redraw);
    assert_eq!(tabs.active_index(), 0);
    assert!(sel.is_empty());
    assert!(preedit.is_empty());

    // A tab number with no tab changes nothing.
    let mut sel = selected();
    let mut preedit = String::from("가");
    assert_eq!(
        apply_tab_command(&mut tabs, &mut sel, &mut preedit, SuperCommand::SwitchTab(5)),
        TabFollowUp::Nothing
    );
    assert_eq!(tabs.active_index(), 0);
    assert!(!sel.is_empty());
    assert_eq!(preedit, "가");

    assert_eq!(
        apply_tab_command(&mut tabs, &mut sel, &mut preedit, SuperCommand::SwitchTab(1)),
        TabFollowUp::Redraw
    );
    assert_eq!(tabs.active_index(), 1);
    assert_eq!(apply_tab_command(&mut tabs, &mut sel, &mut preedit, SuperCommand::PrevTab), TabFollowUp::Redraw);
    assert_eq!(tabs.active_index(), 0);
}

#[test]
fn closing_tabs_expands_then_quits() {
    let mut tabs: TabManager<u32> = TabManager::new();
    tabs.add_tab(1);
    tabs.add_tab(2);
    tabs.add_tab(3);
    let mut sel = selected();
    let mut preedit = String::new();
    assert_eq!(apply_tab_command(&mut tabs, &mut sel, &mut preedit, SuperCommand::CloseTab), TabFollowUp::Redraw);
    assert_eq!(tabs.tabs(), &[1, 2]);
    assert_eq!(tabs.active_index(), 1);
    assert_eq!(
        apply_tab_command(&mut tabs, &mut sel, &mut preedit, SuperCommand::CloseTab),
        TabFollowUp::ExpandActive
    );
    assert_eq!(tabs.tabs(), &[1]);
    assert_eq!(apply_tab_command(&mut tabs, &mut sel, &mut preedit, SuperCommand::CloseTab), TabFollowUp::Quit);
    assert!(tabs.is_empty());
}

#[test]
fn a_page_scrolls_by_the_screen_height() {
    let mut grid = Grid::new(10, 3);
    for _ in 0..9 {
        grid.apply(&TerminalCommand::Newline);
    }
    assert_eq!(grid.scrollback_len(), 7);
    scroll_page(&mut grid, true);
    assert_eq!(grid.scroll_offset(), 3);
    scroll_page(&mut grid, true);
    scroll_page(&mut grid, true);
    assert_eq!(grid.scroll_offset(), 7);
    scroll_page(&mut grid, false);
    assert_eq!(grid.scroll_offset(), 4);
}
