use growterm::clock::NANOS_PER_SEC;
use growterm::pomodoro::{Phase, Pomodoro, BREAK_SECS, WORK_SECS};

fn secs(n: u64) -> u64 {
    n * NANOS_PER_SEC
}

/// A moment some way into the timer's life.
const NOW: u64 = 5_000_000_000;

fn enabled_pomodoro() -> Pomodoro {
    let mut p = Pomodoro::new();
    p.toggle();
    p
}

#[test]
fn initial_state_is_disabled() {
    let p = Pomodoro::new();
    assert!(!p.is_enabled());
    assert!(!p.is_input_blocked());
    assert!(p.display_text_at(NOW).is_none());
}

#[test]
fn pomodoro_toggle_enables_and_disables() {
    let mut p = Pomodoro::new();
    assert!(!p.is_enabled());
    p.toggle();
    assert!(p.is_enabled());
    p.toggle();
    assert!(!p.is_enabled());
}

#[test]
fn pomodoro_toggle_off_resets_state() {
    let mut p = enabled_pomodoro();
    let now = NOW;
    p.on_input_at(now);
    assert_eq!(p.phase(), Phase::Working);

    p.toggle(); // disable
    assert_eq!(p.phase(), Phase::Idle);
    assert!(!p.is_input_blocked());
}

#[test]
fn on_input_ignored_when_disabled() {
    let mut p = Pomodoro::new(); // disabled
    let now = NOW;
    p.on_input_at(now);
    assert_eq!(p.phase(), Phase::Idle);
}

#[test]
fn on_input_starts_working() {
    let mut p = enabled_pomodoro();
    let now = NOW;
    p.on_input_at(now);
    assert_eq!(p.phase(), Phase::Working);
    assert!(!p.is_input_blocked());
}

#[test]
fn on_input_during_working_is_noop() {
    let mut p = enabled_pomodoro();
    let now = NOW;
    p.on_input_at(now);
    let before = p.started_at();
    p.on_input_at(now + secs(10));
    assert_eq!(p.started_at(), before);
}

#[test]
fn tick_transitions_working_to_break_after_25min() {
    let mut p = enabled_pomodoro();
    let now = NOW;
    p.on_input_at(now);

    p.tick_at(now + secs(WORK_SECS - 1));
    assert_eq!(p.phase(), Phase::Working);

    p.tick_at(now + secs(WORK_SECS));
    assert_eq!(p.phase(), Phase::Break);
    assert!(p.is_input_blocked());
}

#[test]
fn tick_transitions_break_to_idle_after_3min() {
    let mut p = enabled_pomodoro();
    let now = NOW;
    p.on_input_at(now);

    let break_start = now + secs(WORK_SECS);
    p.tick_at(break_start);
    assert_eq!(p.phase(), Phase::Break);

    p.tick_at(break_start + secs(BREAK_SECS - 1));
    assert_eq!(p.phase(), Phase::Break);

    p.tick_at(break_start + secs(BREAK_SECS));
    assert_eq!(p.phase(), Phase::Idle);
    assert!(!p.is_input_blocked());
}

#[test]
fn display_text_during_working() {
    let mut p = enabled_pomodoro();
    let now = NOW;
    p.on_input_at(now);

    let text = p.display_text_at(now + secs(30)).unwrap();
    assert!(text.starts_with('\u{1F345}')); // 🍅
    assert!(text.contains("24:30"));
}

#[test]
fn display_text_during_break() {
    let mut p = enabled_pomodoro();
    let now = NOW;
    p.on_input_at(now);

    let break_start = now + secs(WORK_SECS);
    p.tick_at(break_start);

    let text = p.display_text_at(break_start + secs(15)).unwrap();
    assert!(text.starts_with('\u{2615}')); // ☕
    assert!(text.contains("02:45"));
}

#[test]
fn full_cycle_idle_work_break_idle() {
    let mut p = enabled_pomodoro();
    let now = NOW;

    p.on_input_at(now);
    assert_eq!(p.phase(), Phase::Working);

    let t1 = now + secs(WORK_SECS);
    p.tick_at(t1);
    assert_eq!(p.phase(), Phase::Break);

    let t2 = t1 + secs(BREAK_SECS);
    p.tick_at(t2);
    assert_eq!(p.phase(), Phase::Idle);

    p.on_input_at(t2 + secs(1));
    assert_eq!(p.phase(), Phase::Working);
}

#[test]
fn display_text_is_exact() {
    let mut p = enabled_pomodoro();
    p.on_input_at(NOW);
    assert_eq!(p.display_text_at(NOW + secs(61)).unwrap(), "\u{1F345} 23:59");
    assert_eq!(p.display_text_at(NOW + secs(WORK_SECS + 100)).unwrap(), "\u{1F345} 00:00");
}

#[test]
fn toggling_twice_leaves_an_idle_enabled_timer_idle() {
    let mut p = enabled_pomodoro();
    p.on_input_at(NOW);
    p.toggle();
    p.toggle();
    assert!(p.is_enabled());
    assert_eq!(p.phase(), Phase::Idle);
    assert_eq!(p.started_at(), None);
}
