use aruaru_web::history::{history_text, load_history, parse_history, push, render, MAX_ENTRIES};

fn v(items: &[&str]) -> Vec<String> {
    items.iter().map(|s| s.to_string()).collect()
}

#[test]
fn push_adds_trimmed_statement_first() {
    let h = v(&["SELECT 2"]);
    assert_eq!(push(&h, "  SELECT 1 \n"), Some(v(&["SELECT 1", "SELECT 2"])));
}

#[test]
fn push_blank_changes_nothing() {
    assert_eq!(push(&v(&["a"]), "   \t"), None);
    assert_eq!(push(&vec![], ""), None);
}

#[test]
fn push_same_as_newest_changes_nothing() {
    assert_eq!(push(&v(&["SELECT 1", "SELECT 2"]), "SELECT 1 "), None);
}

#[test]
fn push_moves_older_copy_to_front() {
    let h = v(&["a", "b", "c"]);
    assert_eq!(push(&h, "c"), Some(v(&["c", "a", "b"])));
}

#[test]
fn push_keeps_ten_entries() {
    let h: Vec<String> = (0..10).map(|i| format!("q{i}")).collect();
    let r = push(&h, "new").unwrap();
    assert_eq!(r.len(), MAX_ENTRIES);
    assert_eq!(r[0], "new");
    assert_eq!(r[9], "q8");
}

#[test]
fn push_twice_records_once() {
    let h = v(&["x", "y"]);
    let once = push(&h, "z").unwrap();
    assert_eq!(push(&once, "z"), None);
}

#[test]
fn render_empty_history() {
    assert_eq!(render(&vec![]), "<p class=\"muted\">履歴はまだありません。</p>");
}

#[test]
fn render_escapes_entries() {
    assert_eq!(
        render(&v(&["SELECT '<b>'"])),
        "<ul class=\"history-list\"><li><button class=\"history-item\" type=\"button\" title=\"SELECT '&lt;b&gt;'\">SELECT '&lt;b&gt;'</button></li></ul>"
    );
}

#[test]
fn history_storage_round_trip() {
    let h = v(&["SELECT \"q\"", "line\nbreak", "日本語"]);
    let t = history_text(&h).unwrap();
    assert_eq!(load_history(&Some(t)), h);
}

#[test]
fn history_load_falls_back_to_empty() {
    assert!(load_history(&None).is_empty());
    assert!(load_history(&Some("not json".to_string())).is_empty());
    assert!(load_history(&Some("[1, 2]".to_string())).is_empty());
    assert_eq!(parse_history("[\"a\"]"), Some(v(&["a"])));
}
