use growterm::process_tree::{has_descendant_named_in, ps_rows_of};

const LISTING: &str = "  PID  PPID COMMAND\n    1     0 launchd\n  100     1 login\n  200   100 -zsh\n  300   200 node  ink app\n  400     1 other-thing\n";

#[test]
fn a_grandchild_is_found_by_part_of_its_name() {
    assert!(has_descendant_named_in(LISTING, 100, "ink"));
    assert!(has_descendant_named_in(LISTING, 1, "zsh"));
    assert!(has_descendant_named_in(LISTING, 200, "node ink"));
}

#[test]
fn processes_elsewhere_in_the_tree_are_not_below() {
    assert!(!has_descendant_named_in(LISTING, 100, "other"));
    assert!(!has_descendant_named_in(LISTING, 300, "ink"));
    assert!(!has_descendant_named_in(LISTING, 999, "launchd"));
    // The root itself does not count.
    assert!(!has_descendant_named_in(LISTING, 100, "login"));
}

#[test]
fn the_listing_is_read_row_by_row() {
    let rows = ps_rows_of(LISTING);
    // The header line holds no numbers and gives no row.
    assert_eq!(rows.len(), 5);
    assert_eq!(rows[3].0, 300);
    assert_eq!(rows[3].1, 200);
    assert_eq!(rows[3].2.iter().collect::<String>(), "node ink app");
    assert!(ps_rows_of("12 x cmd\n+7 3 ok\n5 6\n").len() == 1);
}

#[test]
fn a_parent_loop_ends_the_search() {
    let listing = "10 20 a\n20 10 b\n";
    assert!(!has_descendant_named_in(listing, 10, "c"));
    assert!(has_descendant_named_in(listing, 10, "a"));
}
