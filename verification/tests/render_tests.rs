use aruaru_web::json::Json;
use aruaru_web::render::{
    csv_row, download_csv, last_result_as_csv, offline_banner, render_query_result,
    render_query_result_offline_sample, render_registry_summary,
    render_registry_summary_offline_sample, render_table, QueryResult,
};

fn s(x: &str) -> Json {
    Json::Str(x.to_string())
}

fn obj(members: Vec<(&str, Json)>) -> Json {
    Json::Object(members.into_iter().map(|(k, v)| (k.to_string(), v)).collect())
}

fn strings(items: &[&str]) -> Vec<String> {
    items.iter().map(|x| x.to_string()).collect()
}

#[test]
fn csv_row_quotes_fields() {
    assert_eq!(csv_row(&strings(&["a", "b\"c", ""])), "\"a\",\"b\"\"c\",\"\"");
    assert_eq!(csv_row(&vec![]), "");
}

#[test]
fn csv_of_last_result() {
    let q = QueryResult { columns: strings(&["id", "msg"]), rows: vec![strings(&["1", "x,y"]), strings(&["2", "\"q\""])] };
    assert_eq!(
        last_result_as_csv(&Some(q)),
        Some("\"id\",\"msg\"\n\"1\",\"x,y\"\n\"2\",\"\"\"q\"\"\"\n".to_string())
    );
    assert_eq!(last_result_as_csv(&None), None);
}

#[test]
fn csv_download_request() {
    let q = QueryResult { columns: strings(&["c"]), rows: vec![] };
    let d = download_csv(&Some(q)).unwrap();
    assert_eq!(d.filename, "aruaru-web-result.csv");
    assert_eq!(d.mime, "text/csv;charset=utf-8;");
    assert_eq!(d.content, "\"c\"\n");
    assert!(download_csv(&None).is_none());
}

#[test]
fn table_with_rows() {
    let r = render_table(strings(&["a", "<b>"]), vec![strings(&["1", "2"])], "<p>pre</p>");
    assert_eq!(
        r.html,
        "<p>pre</p><p class=\"tag\">1 行 &times; 2 列</p><div class=\"table-scroll\"><table><thead><tr><th>a</th><th>&lt;b&gt;</th></tr></thead><tbody><tr><td>1</td><td>2</td></tr></tbody></table></div>"
    );
    assert!(r.export_enabled);
    let last = r.last_result.unwrap();
    assert_eq!(last.columns, strings(&["a", "<b>"]));
    assert_eq!(last.rows, vec![strings(&["1", "2"])]);
}

#[test]
fn table_without_rows_keeps_header_and_disables_export() {
    let r = render_table(strings(&["a"]), vec![], "");
    assert_eq!(
        r.html,
        "<p class=\"tag\">0 行 &times; 1 列</p><div class=\"table-scroll\"><table><thead><tr><th>a</th></tr></thead><tbody></tbody></table></div>"
    );
    assert!(!r.export_enabled);
    assert!(r.last_result.is_some());
}

#[test]
fn query_result_reads_columns_rows_and_tag() {
    let data = obj(vec![
        ("columns", Json::Array(vec![s("id"), Json::Number(Some(3)), s("name")])),
        ("rows", Json::Array(vec![Json::Array(vec![s("1"), Json::Null]), s("skipped")])),
        ("commandTag", s("SELECT 1")),
    ]);
    let r = render_query_result(&data, false);
    assert_eq!(
        r.html,
        "<p class=\"tag\">command: SELECT 1</p><p class=\"tag\">1 行 &times; 2 列</p><div class=\"table-scroll\"><table><thead><tr><th>id</th><th>name</th></tr></thead><tbody><tr><td>1</td><td></td></tr></tbody></table></div>"
    );
    assert!(r.export_enabled);
}

#[test]
fn query_result_empty() {
    let data = obj(vec![("columns", Json::Array(vec![])), ("rows", Json::Array(vec![]))]);
    let r = render_query_result(&data, true);
    assert_eq!(r.html, format!("{}<p class=\"muted\">結果はありません(0行)。</p>", offline_banner()));
    assert!(r.last_result.is_none());
    assert!(!r.export_enabled);
}

#[test]
fn query_result_of_non_object_is_empty() {
    let r = render_query_result(&Json::Null, false);
    assert_eq!(r.html, "<p class=\"muted\">結果はありません(0行)。</p>");
}

#[test]
fn offline_query_sample() {
    let r = render_query_result_offline_sample("SELECT <x>");
    assert!(r.html.starts_with(offline_banner()));
    assert!(r.html.contains("<td>sample row for: SELECT &lt;x&gt;</td>"));
    assert!(r.html.contains("<p class=\"tag\">2 行 &times; 3 列</p>"));
    assert!(!r.html.contains("command:"));
    let last = r.last_result.unwrap();
    assert_eq!(last.columns, strings(&["id", "short_id", "message"]));
    assert_eq!(last.rows[1], strings(&["2", "e4f5a6b", "aruaru-server is not reachable from this build"]));
    assert!(r.export_enabled);
}

fn stat(label: &str, n: &str) -> String {
    format!("<div class=\"stat\"><dt>{label}</dt><dd>{n}</dd></div>")
}

#[test]
fn registry_summary_counts() {
    let data = obj(vec![
        ("total", Json::Number(Some(5))),
        ("connectable", Json::Number(Some(-2))),
        ("ga", s("7")),
        ("beta", Json::Number(None)),
        ("planned", Json::Number(Some(i64::MIN))),
    ]);
    let r = render_registry_summary(&data, false);
    let expected = String::from("<dl class=\"summary\">")
        + &stat("登録DB総数", "5")
        + &stat("接続確認可能", "-2")
        + &stat("GA", "0")
        + &stat("Beta", "0")
        + &stat("PostgreSQL互換", "0")
        + &stat("計画中", &i64::MIN.to_string())
        + "</dl>";
    assert_eq!(r.html, expected);
    assert!(r.last_result.is_none());
    assert!(!r.export_enabled);
}

#[test]
fn offline_registry_sample() {
    let r = render_registry_summary_offline_sample();
    let expected = String::from(offline_banner())
        + "<dl class=\"summary\">"
        + &stat("登録DB総数", "159")
        + &stat("接続確認可能", "42")
        + &stat("GA", "12")
        + &stat("Beta", "9")
        + &stat("PostgreSQL互換", "21")
        + &stat("計画中", "96")
        + "</dl>";
    assert_eq!(r.html, expected);
}
