use aruaru_web::dom::esc;
use aruaru_web::text::{decimal_text, is_blank, join_texts, trim};

#[test]
fn esc_replaces_markup_characters() {
    assert_eq!(esc("<a href=\"x\">A & B</a>"), "&lt;a href=&quot;x&quot;&gt;A &amp; B&lt;/a&gt;");
}

#[test]
fn esc_keeps_plain_text() {
    assert_eq!(esc("plain text 日本語"), "plain text 日本語");
    assert_eq!(esc(""), "");
}

#[test]
fn esc_does_not_touch_single_quotes() {
    assert_eq!(esc("it's"), "it's");
}

#[test]
fn esc_escapes_existing_entities_again() {
    assert_eq!(esc("&lt;"), "&amp;lt;");
}

#[test]
fn esc_output_has_no_tag_characters() {
    let out = esc("<<\">>\"");
    assert!(!out.contains('<') && !out.contains('>') && !out.contains('"'));
}

#[test]
fn trim_matches_std() {
    for s in ["  x  ", "\t\nabc\r\n", "", "   ", "a b", "\u{3000}全角\u{3000}", "\u{a0}x\u{85}"] {
        assert_eq!(trim(s), s.trim());
    }
}

#[test]
fn blank_matches_trim() {
    for s in ["", " ", "\t\n", "\u{2028}", " a ", "x"] {
        assert_eq!(is_blank(s), s.trim().is_empty());
    }
}

#[test]
fn decimal_text_formats() {
    assert_eq!(decimal_text(0), "0");
    assert_eq!(decimal_text(7), "7");
    assert_eq!(decimal_text(65535), "65535");
    assert_eq!(decimal_text(u64::MAX), u64::MAX.to_string());
}

#[test]
fn join_texts_joins() {
    let parts = vec!["a".to_string(), "b".to_string(), "c".to_string()];
    assert_eq!(join_texts(&parts, "; "), "a; b; c");
    assert_eq!(join_texts(&vec![], "; "), "");
    assert_eq!(join_texts(&vec!["only".to_string()], ","), "only");
}
