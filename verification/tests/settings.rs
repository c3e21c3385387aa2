use growterm::settings::{adopt_legacy_minutes, legacy_flag, legacy_seconds, setting_named, ConfigWatch, MenuSettings, Setting};

#[test]
fn the_menu_names_its_settings() {
    assert_eq!(setting_named("pomodoro"), Some(Setting::Pomodoro));
    assert_eq!(setting_named("coaching"), Some(Setting::Coaching));
    assert_eq!(setting_named("response-timer"), Some(Setting::ResponseTimer));
    assert_eq!(setting_named("transparent-tab-bar"), Some(Setting::TransparentTabBar));
    assert_eq!(setting_named("Pomodoro"), None);
    assert_eq!(setting_named("zoom"), None);
}

#[test]
fn old_flag_files_are_read_with_their_defaults() {
    assert!(legacy_flag(None, true));
    assert!(!legacy_flag(None, false));
    assert!(legacy_flag(Some(" 1\n"), false));
    assert!(!legacy_flag(Some("yes"), false));
    assert!(!legacy_flag(Some("0\n"), true));
    assert!(legacy_flag(Some("2"), true));
    assert!(legacy_flag(Some(""), true));
}

#[test]
fn legacy_minutes_read_as_seconds() {
    assert_eq!(legacy_seconds(false, Some(30), 1500), 1800);
    assert_eq!(legacy_seconds(true, Some(30), 1500), 1500);
    assert_eq!(legacy_seconds(false, Some(-1), 1500), 1500);
    assert_eq!(legacy_seconds(false, None, 1500), 1500);
}

#[test]
fn a_file_change_is_reported_once() {
    let mut w = ConfigWatch::new(Some((10, 0)));
    assert!(!w.changed(Some((10, 0))));
    assert!(w.changed(Some((11, 5))));
    assert!(!w.changed(Some((11, 5))));
    assert!(w.changed(None));
    assert!(!w.changed(None));
    assert!(w.changed(Some((11, 5))));
}

/// The menu settings as a default configuration has them.
fn default_menu() -> MenuSettings {
    MenuSettings { pomodoro: false, coaching: true, response_timer: false, transparent_tab_bar: false }
}

#[test]
fn a_toggle_flips_its_setting() {
    let mut config = default_menu();
    assert!(!config.pomodoro);

    assert!(config.toggle("pomodoro"));

    assert!(config.pomodoro);
}

#[test]
fn a_toggle_flips_back() {
    let mut config = default_menu();

    config.toggle("response-timer");
    config.toggle("response-timer");

    assert!(!config.response_timer);
}

#[test]
fn every_name_the_desktop_menu_uses_is_known() {
    let mut config = default_menu();

    for name in ["pomodoro", "coaching", "response-timer", "transparent-tab-bar"] {
        assert!(config.toggle(name), "{name} should be a setting");
    }
}

#[test]
fn an_unknown_name_changes_nothing() {
    let mut config = default_menu();
    let before = config;

    assert!(!config.toggle("pomodoro-timer"));

    assert_eq!(config, before);
}

/// The default work and break durations, in seconds.
const DEFAULTS: (u64, u64) = (25 * 60, 3 * 60);

fn adopted(contents: &str) -> (u64, u64) {
    adopt_legacy_minutes(contents, DEFAULTS.0, DEFAULTS.1).unwrap()
}

#[test]
fn minutes_from_an_older_config_become_seconds() {
    let config = adopted("pomodoro_work_minutes = 40\npomodoro_break_minutes = 7\n");

    assert_eq!(config.0, 40 * 60);
    assert_eq!(config.1, 7 * 60);
}

#[test]
fn seconds_win_when_a_config_carries_both() {
    // The seconds key is read into the configuration elsewhere; here the
    // minutes are not carried over it.
    let config = adopted("pomodoro_work_minutes = 40\npomodoro_work_seconds = 90\n");

    assert_eq!(config.0, DEFAULTS.0);
}

#[test]
fn each_duration_migrates_on_its_own() {
    let config = adopted("pomodoro_work_seconds = 90\npomodoro_break_minutes = 7\n");

    assert_eq!(config.0, DEFAULTS.0);
    assert_eq!(config.1, 7 * 60);
}

#[test]
fn a_config_without_either_keeps_the_defaults() {
    let config = adopted("font_size = 20.0\n");

    assert_eq!(config.0, 25 * 60);
    assert_eq!(config.1, 3 * 60);
}

#[test]
fn minutes_that_are_no_whole_number_or_no_toml_change_nothing() {
    assert_eq!(adopted("pomodoro_work_minutes = \"40\"\n"), DEFAULTS);
    assert_eq!(adopted("pomodoro_work_minutes = -5\n"), DEFAULTS);
    assert_eq!(adopted("pomodoro_work_minutes = = 40"), DEFAULTS);
    assert_eq!(adopted("[pomodoro]\npomodoro_work_minutes = 40\n"), DEFAULTS);
}

#[test]
fn minutes_too_large_for_seconds_are_refused() {
    assert!(adopt_legacy_minutes("pomodoro_break_minutes = 9223372036854775807\n", 1, 2).is_none());
    assert_eq!(
        adopt_legacy_minutes("pomodoro_break_minutes = 9223372036854775807\npomodoro_break_seconds = 5\n", 1, 2),
        Some((1, 2))
    );
}
