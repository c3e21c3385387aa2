use growterm::hangul::compose_syllable;
use growterm::jamo_compose::{is_single_jamo, JamoBuffer};

#[test]
fn is_single_jamo_detects_consonants() {
    assert_eq!(is_single_jamo("ㅎ"), Some('ㅎ'));
    assert_eq!(is_single_jamo("ㄱ"), Some('ㄱ'));
}

#[test]
fn is_single_jamo_detects_vowels() {
    assert_eq!(is_single_jamo("ㅏ"), Some('ㅏ'));
    assert_eq!(is_single_jamo("ㅣ"), Some('ㅣ'));
}

#[test]
fn is_single_jamo_rejects_non_jamo() {
    assert_eq!(is_single_jamo("a"), None);
    assert_eq!(is_single_jamo("한"), None);
    assert_eq!(is_single_jamo("ㅎㅏ"), None);
}

#[test]
fn compose_cho_jung() {
    let mut buf = JamoBuffer::new();
    assert_eq!(buf.push("ㅎ"), None);
    assert_eq!(buf.push("ㅏ"), None);
    // ㄴ may still be a final consonant, so nothing comes out yet
    assert_eq!(buf.push("ㄴ"), None);
    // the next initial consonant completes "한"
    assert_eq!(buf.push("ㄱ"), Some("한".into()));
    assert_eq!(buf.flush(), Some("ㄱ".into()));
}

#[test]
fn compose_cho_jung_jong() {
    let mut buf = JamoBuffer::new();
    assert_eq!(buf.push("ㅎ"), None);
    assert_eq!(buf.push("ㅏ"), None);
    assert_eq!(buf.push("ㄴ"), None);
    assert_eq!(buf.flush(), Some("한".into()));
}

#[test]
fn compose_hangul_full_word() {
    let mut buf = JamoBuffer::new();
    let mut result = String::new();

    for jamo in ["ㅎ", "ㅏ", "ㄴ", "ㄱ", "ㅡ", "ㄹ"] {
        if let Some(s) = buf.push(jamo) {
            result.push_str(&s);
        }
    }
    if let Some(s) = buf.flush() {
        result.push_str(&s);
    }
    assert_eq!(result, "한글");
}

#[test]
fn composed_syllable_flushes_buffer() {
    let mut buf = JamoBuffer::new();
    assert_eq!(buf.push("ㅎ"), None);
    let result = buf.push("한");
    assert_eq!(result, Some("ㅎ한".into()));
    assert!(!buf.is_active());
}

#[test]
fn english_passes_through() {
    let mut buf = JamoBuffer::new();
    let result = buf.push("a");
    assert_eq!(result, Some("a".into()));
    assert!(!buf.is_active());
}

#[test]
fn english_with_buffered_jamo_flushes() {
    let mut buf = JamoBuffer::new();
    assert_eq!(buf.push("ㅎ"), None);
    let result = buf.push("a");
    assert_eq!(result, Some("ㅎa".into()));
}

#[test]
fn flush_empty_returns_none() {
    let mut buf = JamoBuffer::new();
    assert_eq!(buf.flush(), None);
}

#[test]
fn flush_cho_returns_consonant() {
    let mut buf = JamoBuffer::new();
    buf.push("ㅎ");
    assert_eq!(buf.flush(), Some("ㅎ".into()));
}

#[test]
fn flush_cho_jung_returns_syllable() {
    let mut buf = JamoBuffer::new();
    buf.push("ㅎ");
    buf.push("ㅏ");
    assert_eq!(buf.flush(), Some("하".into()));
}

#[test]
fn jong_becomes_next_cho_when_jung_follows() {
    let mut buf = JamoBuffer::new();
    let mut result = String::new();
    for jamo in ["ㅎ", "ㅏ", "ㄴ", "ㅏ"] {
        if let Some(s) = buf.push(jamo) {
            result.push_str(&s);
        }
    }
    if let Some(s) = buf.flush() {
        result.push_str(&s);
    }
    assert_eq!(result, "하나");
}

#[test]
fn flush_leaves_the_buffer_empty() {
    let mut buf = JamoBuffer::new();
    buf.push("ㄱ");
    buf.push("ㅗ");
    assert!(buf.is_active());
    assert_eq!(buf.flush(), Some("고".into()));
    assert!(!buf.is_active());
    assert_eq!(buf.flush(), None);
}

#[test]
fn compose_syllable_formula() {
    // 0xAC00 + (cho * 21 + jung) * 28 + jong
    assert_eq!(compose_syllable(18, 0, 0), '하');
    assert_eq!(compose_syllable(18, 0, 4), '한');
    assert_eq!(compose_syllable(0, 0, 0), '가');
    assert_eq!(compose_syllable(18, 20, 27), '힣');
}
