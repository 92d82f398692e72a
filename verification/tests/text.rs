use gemini_live_transcribe::text::{
    chars_of, decimal_text, has_part, has_prefix, hyphenate, join_texts, nonblank_text,
    padded_decimal_text, same_text, text_of, trim_text,
};

#[test]
fn text_is_trimmed_as_unicode() {
    assert_eq!(trim_text("\t \u{85}\u{1680}x y\u{2028}\u{3000}"), "x y");
    assert_eq!(trim_text("   "), "");
    assert_eq!(nonblank_text(" \u{202f} "), None);
    assert_eq!(nonblank_text(" a "), Some("a".to_string()));
    assert_eq!(trim_text(&trim_text("  a b  ")), "a b");
}

#[test]
fn text_is_taken_apart() {
    assert_eq!(chars_of("aé字"), vec!['a', 'é', '字']);
    assert_eq!(text_of(&vec!['a', 'é', '字'], 1, 3), "é字");
    assert!(same_text("é", "é"));
    assert!(!same_text("é", "e"));
    assert!(has_prefix("models/x", "models/"));
    assert!(!has_prefix("model", "models/"));
    assert!(has_part("gemini-3.1-flash", "flash"));
    assert!(has_part("x", ""));
    assert!(!has_part("flas", "flash"));
}

#[test]
fn text_is_put_together() {
    let parts = vec!["a".to_string(), "b".to_string(), String::new()];
    assert_eq!(join_texts(&parts, ", "), "a, b, ");
    assert_eq!(join_texts(&vec![], ", "), "");
    assert_eq!(hyphenate("system audio  x"), "system-audio--x");
}

#[test]
fn numbers_are_spelled_in_decimal() {
    assert_eq!(decimal_text(0), "0");
    assert_eq!(decimal_text(1_203), "1203");
    assert_eq!(decimal_text(u128::MAX), u128::MAX.to_string());
    assert_eq!(padded_decimal_text(7, 2), "07");
    assert_eq!(padded_decimal_text(123, 2), "123");
    assert_eq!(padded_decimal_text(0, 3), "000");
}
