use growterm::commands::{dropped_paths_text, is_enter, shell_escape, super_command, SuperCommand};
use growterm::copy_mode::{CopyModeAction, CopyModeKeys};
use growterm::keycode as kc;
use growterm::keycode::char_to_keycode;

#[test]
fn shell_escape_plain_path() {
    assert_eq!(shell_escape("/Users/me/file.txt"), "/Users/me/file.txt");
}

#[test]
fn shell_escape_path_with_spaces() {
    assert_eq!(shell_escape("/Users/me/my file.txt"), "'/Users/me/my file.txt'");
}

#[test]
fn shell_escape_path_with_special_chars() {
    assert_eq!(shell_escape("/tmp/a&b.txt"), "'/tmp/a&b.txt'");
}

#[test]
fn shell_escape_path_with_single_quote() {
    assert_eq!(shell_escape("/tmp/it's.txt"), "'/tmp/it'\\''s.txt'");
}

#[test]
fn dropped_paths_are_escaped_and_joined() {
    let paths = vec!["/a b".to_string(), "/c".to_string(), "/d$e".to_string()];
    assert_eq!(dropped_paths_text(&paths), "'/a b' /c '/d$e'");
    assert_eq!(dropped_paths_text(&Vec::new()), "");
}

#[test]
fn command_shortcuts_of_the_mac_app() {
    assert_eq!(super_command(kc::ANSI_T, false), Some(SuperCommand::NewTab));
    assert_eq!(super_command(kc::ANSI_W, true), Some(SuperCommand::CloseTab));
    assert_eq!(super_command(kc::ANSI_LEFT_BRACKET, true), Some(SuperCommand::PrevTab));
    assert_eq!(super_command(kc::ANSI_RIGHT_BRACKET, true), Some(SuperCommand::NextTab));
    assert_eq!(super_command(kc::ANSI_LEFT_BRACKET, false), None);
    assert_eq!(super_command(kc::ANSI_1, false), Some(SuperCommand::SwitchTab(0)));
    assert_eq!(super_command(kc::ANSI_9, false), Some(SuperCommand::SwitchTab(8)));
    assert_eq!(super_command(kc::PAGE_UP, false), Some(SuperCommand::ScrollPageUp));
    assert_eq!(super_command(kc::PAGE_DOWN, false), Some(SuperCommand::ScrollPageDown));
    assert_eq!(super_command(kc::ANSI_C, false), Some(SuperCommand::Copy));
    assert_eq!(super_command(kc::ANSI_V, false), Some(SuperCommand::Paste));
    assert_eq!(super_command(kc::ANSI_EQUAL, false), Some(SuperCommand::ZoomIn));
    assert_eq!(super_command(kc::ANSI_MINUS, false), Some(SuperCommand::ZoomOut));
    assert_eq!(super_command(kc::ANSI_Q, false), None);
}

#[test]
fn enter_is_a_lone_cr_or_lf() {
    assert!(is_enter(&vec![b'\r']));
    assert!(is_enter(&vec![b'\n']));
    assert!(!is_enter(&vec![b'\r', b'\n']));
    assert!(!is_enter(&vec![b'a']));
    assert!(!is_enter(&Vec::new()));
}

#[test]
fn build_action_map_default() {
    let keys = CopyModeKeys::default();
    let map = keys.build_action_map();
    assert_eq!(map.get(&kc::ANSI_J), Some(&CopyModeAction::Down));
    assert_eq!(map.get(&kc::ANSI_K), Some(&CopyModeAction::Up));
    assert_eq!(map.get(&kc::ANSI_V), Some(&CopyModeAction::Visual));
    assert_eq!(map.get(&kc::ANSI_H), Some(&CopyModeAction::HalfPageDown));
    assert_eq!(map.get(&kc::ANSI_D), Some(&CopyModeAction::HalfPageDown));
    assert_eq!(map.get(&kc::ANSI_L), Some(&CopyModeAction::HalfPageUp));
    assert_eq!(map.get(&kc::ANSI_U), Some(&CopyModeAction::HalfPageUp));
    assert_eq!(map.get(&kc::ANSI_Y), Some(&CopyModeAction::Yank));
    assert_eq!(map.get(&kc::ANSI_O), Some(&CopyModeAction::OpenUrl));
    assert_eq!(map.get(&kc::ESCAPE), Some(&CopyModeAction::Exit));
    assert_eq!(map.get(&kc::ANSI_Q), Some(&CopyModeAction::Exit));
    assert_eq!(map.get(&kc::ANSI_GRAVE), Some(&CopyModeAction::Exit));
}

#[test]
fn build_action_map_custom() {
    let mut keys = CopyModeKeys::default();
    keys.down = vec!["n".into()];
    let map = keys.build_action_map();
    assert_eq!(map.get(&kc::ANSI_N), Some(&CopyModeAction::Down));
    assert_eq!(map.get(&kc::ANSI_J), None); // j no longer mapped
}

#[test]
fn a_later_binding_wins_and_unknown_names_are_skipped() {
    let mut keys = CopyModeKeys::default();
    keys.down = vec!["y".into(), "NoSuchKey".into()];
    let map = keys.build_action_map();
    assert_eq!(map.get(&kc::ANSI_Y), Some(&CopyModeAction::Yank));
    assert_eq!(map.len(), 11);
}

#[test]
fn key_names_of_the_configuration() {
    assert_eq!(char_to_keycode("Escape"), Some(kc::ESCAPE));
    assert_eq!(char_to_keycode("Enter"), Some(kc::RETURN));
    assert_eq!(char_to_keycode("Tab"), Some(kc::TAB));
    assert_eq!(char_to_keycode("Space"), Some(kc::SPACE));
    assert_eq!(char_to_keycode("Backspace"), Some(kc::DELETE));
    assert_eq!(char_to_keycode("`"), Some(kc::ANSI_GRAVE));
    assert_eq!(char_to_keycode("escape"), None);
    assert_eq!(char_to_keycode(""), None);
}
