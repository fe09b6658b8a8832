use aruaru_web::actions::{tab_display, current_endpoint, is_run_shortcut, on_registry_reply, on_run_sql, on_sql_reply, DEFAULT_SQL};
use aruaru_web::json::Json;
use aruaru_web::profiles::default_profiles;
use aruaru_web::render::{render_query_result_offline_sample, render_registry_summary_offline_sample};

fn obj(members: Vec<(&str, Json)>) -> Json {
    Json::Object(members.into_iter().map(|(k, v)| (k.to_string(), v)).collect())
}

#[test]
fn default_sql_text() {
    assert_eq!(DEFAULT_SQL, "SELECT * FROM aruaru_log LIMIT 10;");
}

#[test]
fn endpoint_box_wins_when_filled() {
    let ps = default_profiles();
    assert_eq!(current_endpoint("http://x:1/g", &ps, &None), "http://x:1/g");
    assert_eq!(current_endpoint("  ", &ps, &Some("seed-other-example".to_string())), "http://tool.example.local:9000/graphql");
    assert_eq!(current_endpoint("", &ps, &None), "http://localhost:4000/graphql");
}

#[test]
fn shortcut_needs_enter_with_modifier() {
    assert!(is_run_shortcut("Enter", true, false));
    assert!(is_run_shortcut("Enter", false, true));
    assert!(!is_run_shortcut("Enter", false, false));
    assert!(!is_run_shortcut("a", true, true));
}

#[test]
fn blank_sql_is_refused() {
    assert_eq!(on_run_sql(" \n"), Some("SQLを入力してください。".to_string()));
    assert_eq!(on_run_sql("SELECT 1"), None);
}

#[test]
fn sql_reply_success() {
    let body = obj(vec![("data", obj(vec![("sql", obj(vec![("columns", Json::Array(vec![Json::Str("c".to_string())]))]))]))]);
    let shown = on_sql_reply("SELECT 1", "http://h/g", &Ok(body));
    assert_eq!(shown.status, "実行完了(aruaru-dbから取得)。");
    assert!(shown.rendered.html.contains("<th>c</th>"));
    assert!(!shown.rendered.export_enabled);
}

#[test]
fn sql_reply_unreadable_shows_sample() {
    let shown = on_sql_reply("SELECT 1", "http://h/g", &Ok(obj(vec![])));
    assert_eq!(
        shown.status,
        "サーバー応答を解釈できませんでした(レスポンスに data.sql が見つかりません)。オフラインサンプルを表示しています。"
    );
    assert_eq!(shown.rendered.html, render_query_result_offline_sample("SELECT 1").html);
}

#[test]
fn sql_reply_connection_failure_shows_sample() {
    let shown = on_sql_reply("SELECT 2", "http://h/g", &Err("HTTP 502".to_string()));
    assert_eq!(
        shown.status,
        "aruaru-db (http://h/g) に接続できませんでした: HTTP 502。オフラインサンプルを表示しています。"
    );
    assert_eq!(shown.rendered.html, render_query_result_offline_sample("SELECT 2").html);
}

#[test]
fn registry_reply_cases() {
    let body = obj(vec![("data", obj(vec![("registrySummary", obj(vec![("total", Json::Number(Some(3)))]))]))]);
    let shown = on_registry_reply("e", &Ok(body));
    assert_eq!(shown.status, "実行完了(aruaru-dbから取得)。");
    assert!(shown.rendered.html.contains("<dd>3</dd>"));
    let failed = on_registry_reply("e", &Err("down".to_string()));
    assert_eq!(failed.rendered.html, render_registry_summary_offline_sample().html);
    assert_eq!(failed.status, "aruaru-db (e) に接続できませんでした: down。オフラインサンプルを表示しています。");
}

#[test]
fn tab_panels_show_only_the_chosen_one() {
    assert_eq!(tab_display("sql", "sql"), "block");
    assert_eq!(tab_display("sites", "sql"), "none");
}
