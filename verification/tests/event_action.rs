use growterm::event_action::{Action, ImeHandler};

#[test]
fn ime_commit_korean() {
    let mut h = ImeHandler::new();
    let result = h.handle_ime_commit("한글");
    assert_eq!(result, Action::WritePty(vec![0xED, 0x95, 0x9C, 0xEA, 0xB8, 0x80]));
}

#[test]
fn ime_commit_ascii() {
    let mut h = ImeHandler::new();
    let result = h.handle_ime_commit("hello");
    assert_eq!(result, Action::WritePty(b"hello".to_vec()));
}

#[test]
fn ime_preedit_composing() {
    let mut h = ImeHandler::new();
    let result = h.handle_ime_preedit("한");
    assert_eq!(result, Action::SetPreedit("한".to_string()));
}

#[test]
fn ime_preedit_empty_ends_composing() {
    let mut h = ImeHandler::new();
    let result = h.handle_ime_preedit("");
    assert_eq!(result, Action::SetPreedit(String::new()));
}

#[test]
fn first_preedit_character_sets_preedit() {
    let mut h = ImeHandler::new();
    let result = h.handle_ime_preedit("ㅎ");
    assert_eq!(result, Action::SetPreedit("ㅎ".to_string()));
}

#[test]
fn plain_char_suppressed_when_ime_composing() {
    let mut h = ImeHandler::new();
    h.handle_ime_preedit("ㅎ");
    assert_eq!(h.handle_plain_char_input(Some("ㅎ")), None);
    assert_eq!(h.handle_plain_char_input(Some("a")), None);
}

#[test]
fn plain_char_none_text_when_ime_composing() {
    let mut h = ImeHandler::new();
    h.handle_ime_preedit("ㅎ");
    assert_eq!(h.handle_plain_char_input(None), None);
}

#[test]
fn plain_char_sent_when_not_composing() {
    let mut h = ImeHandler::new();
    assert_eq!(h.handle_plain_char_input(Some("a")), Some(Action::WritePty(b"a".to_vec())));
}

#[test]
fn plain_char_none_text_when_not_composing() {
    let mut h = ImeHandler::new();
    assert_eq!(h.handle_plain_char_input(None), None);
}

#[test]
fn english_input_flow_no_ime() {
    let mut h = ImeHandler::new();
    assert_eq!(h.handle_plain_char_input(Some("a")), Some(Action::WritePty(b"a".to_vec())));
    assert_eq!(h.handle_plain_char_input(Some("z")), Some(Action::WritePty(b"z".to_vec())));
    assert_eq!(h.handle_plain_char_input(Some("1")), Some(Action::WritePty(b"1".to_vec())));
}

#[test]
fn first_korean_key_leaks_jamo_before_ime_enabled() {
    let mut h = ImeHandler::new();
    let result = h.handle_plain_char_input(Some("ㅇ"));
    // A Hangul jamo is held back, not sent to the PTY.
    assert_eq!(result, None);
    assert_eq!(h.pending_jamo(), Some('ㅇ'));
}

#[test]
fn typing_annyeong_sends_annyeong_to_pty() {
    let mut h = ImeHandler::new();
    let mut pty_bytes: Vec<u8> = Vec::new();

    // 1) KeyboardInput("ㅇ") arrives before the IME is enabled
    assert_eq!(h.handle_plain_char_input(Some("ㅇ")), None);

    // 2) Preedit("ㅏ") composes with the held "ㅇ" into "아"
    let action = h.handle_ime_preedit("ㅏ");
    assert_eq!(action, Action::SetPreedit("아".to_string()));

    // 3) Preedit("") then Commit("ㅏ"): a lone jamo commit
    h.handle_ime_preedit("");
    if let Action::WritePty(b) = h.handle_ime_commit("ㅏ") {
        pty_bytes.extend(b);
    }

    // 4) Preedit("ㄴ") then Commit("ㄴ")
    h.handle_ime_preedit("ㄴ");
    h.handle_ime_preedit("");
    if let Action::WritePty(b) = h.handle_ime_commit("ㄴ") {
        pty_bytes.extend(b);
    }

    // 5) Preedit("ㄴ") → "녀" → "녕"
    h.handle_ime_preedit("ㄴ");
    h.handle_ime_preedit("녀");
    h.handle_ime_preedit("녕");

    // 6) Preedit("") then Commit("녕")
    h.handle_ime_preedit("");
    if let Action::WritePty(b) = h.handle_ime_commit("녕") {
        pty_bytes.extend(b);
    }

    assert_eq!(String::from_utf8(pty_bytes).unwrap(), "안녕");
}

#[test]
fn korean_input_flow_no_jamo_leak() {
    let mut h = ImeHandler::new();
    assert_eq!(h.handle_plain_char_input(Some("ㅎ")), None);

    assert_eq!(h.handle_ime_preedit("ㅎ"), Action::SetPreedit("ㅎ".into()));
    assert_eq!(h.handle_ime_preedit("하"), Action::SetPreedit("하".into()));
    assert_eq!(h.handle_ime_preedit("한"), Action::SetPreedit("한".into()));

    assert_eq!(h.handle_ime_preedit(""), Action::SetPreedit(String::new()));
    assert_eq!(h.handle_ime_commit("한"), Action::WritePty("한".as_bytes().to_vec()));
}

#[test]
fn composing_follows_the_preedit() {
    let mut h = ImeHandler::new();
    assert!(!h.is_composing());
    h.handle_ime_preedit("ㄱ");
    assert!(h.is_composing());
    assert_eq!(h.preedit(), "ㄱ");
    h.handle_ime_preedit("");
    assert!(!h.is_composing());
    assert_eq!(h.preedit(), "");
}
