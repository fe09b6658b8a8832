use aruaru_web::graphql::{extract_data, json_text, parse_json, read_response, request_envelope, registry_request_body, sql_request_body, sql_variables, REGISTRY_SUMMARY_QUERY, SQL_QUERY};
use aruaru_web::json::Json;

fn s(x: &str) -> Json {
    Json::Str(x.to_string())
}

fn obj(members: Vec<(&str, Json)>) -> Json {
    Json::Object(members.into_iter().map(|(k, v)| (k.to_string(), v)).collect())
}

fn text(j: &Json) -> Option<&str> {
    match j {
        Json::Str(x) => Some(x.as_str()),
        _ => None,
    }
}

#[test]
fn queries_are_as_sent() {
    assert_eq!(SQL_QUERY, "query($sql: String!) { sql(query: $sql) { columns rows commandTag } }");
    assert_eq!(REGISTRY_SUMMARY_QUERY, "{ registrySummary { total connectable ga beta pgCompatible planned } }");
}

#[test]
fn extract_takes_the_field() {
    let body = obj(vec![("data", obj(vec![("sql", s("payload"))]))]);
    let r = extract_data(&body, "sql");
    assert_eq!(r.as_ref().ok().and_then(text), Some("payload"));
}

#[test]
fn extract_reports_errors() {
    let body = obj(vec![
        ("errors", Json::Array(vec![obj(vec![("message", s("bad"))]), obj(vec![]), obj(vec![("message", s("worse"))])])),
        ("data", obj(vec![("sql", s("ignored"))])),
    ]);
    assert_eq!(extract_data(&body, "sql").err(), Some("GraphQL errors: bad; worse".to_string()));
}

#[test]
fn extract_errors_without_messages() {
    let body = obj(vec![("errors", Json::Array(vec![Json::Null]))]);
    assert_eq!(extract_data(&body, "sql").err(), Some("GraphQL errors: ".to_string()));
}

#[test]
fn extract_ignores_empty_errors() {
    let body = obj(vec![("errors", Json::Array(vec![])), ("data", obj(vec![("sql", s("ok"))]))]);
    assert_eq!(extract_data(&body, "sql").as_ref().ok().and_then(text), Some("ok"));
}

#[test]
fn extract_reports_missing_field() {
    let body = obj(vec![("data", obj(vec![("other", Json::Null)]))]);
    assert_eq!(extract_data(&body, "sql").err(), Some("レスポンスに data.sql が見つかりません".to_string()));
    assert_eq!(
        extract_data(&Json::Null, "registrySummary").err(),
        Some("レスポンスに data.registrySummary が見つかりません".to_string())
    );
}

#[test]
fn extract_keeps_null_data_field() {
    let body = obj(vec![("data", obj(vec![("sql", Json::Null)]))]);
    assert!(matches!(extract_data(&body, "sql"), Ok(Json::Null)));
}

#[test]
fn reply_text_is_parsed() {
    let r = parse_json("{\"data\":{\"sql\":{\"rows\":[[\"1\",null]],\"n\":12,\"f\":1.5,\"ok\":true}}}").ok().unwrap();
    let sql = extract_data(&r, "sql").ok().unwrap();
    match sql {
        Json::Object(members) => {
            let get = |k: &str| members.iter().find(|(name, _)| name == k).map(|(_, v)| v);
            assert!(matches!(get("n"), Some(Json::Number(Some(12)))));
            assert!(matches!(get("f"), Some(Json::Number(None))));
            assert!(matches!(get("ok"), Some(Json::Bool(true))));
            match get("rows") {
                Some(Json::Array(rows)) => match &rows[0] {
                    Json::Array(cells) => {
                        assert_eq!(text(&cells[0]), Some("1"));
                        assert!(matches!(cells[1], Json::Null));
                    }
                    _ => panic!("row is not an array"),
                },
                _ => panic!("no rows"),
            }
        }
        _ => panic!("not an object"),
    }
}

#[test]
fn invalid_reply_text_is_an_error() {
    let e = parse_json("not json").err().unwrap();
    assert!(!e.is_empty() && !e.starts_with("invalid JSON"));
    let r = read_response(true, 200, "not json").err().unwrap();
    assert_eq!(r, format!("invalid JSON from server: {e}"));
}

#[test]
fn failed_status_is_reported() {
    assert_eq!(read_response(false, 503, "{}").err(), Some("HTTP 503".to_string()));
    assert!(matches!(read_response(true, 200, "null"), Ok(Json::Null)));
}

#[test]
fn request_bodies() {
    let v: serde_json::Value = serde_json::from_str(&sql_request_body("SELECT \"x\"")).unwrap();
    assert_eq!(v["query"], SQL_QUERY);
    assert_eq!(v["variables"]["sql"], "SELECT \"x\"");
    let r: serde_json::Value = serde_json::from_str(&registry_request_body()).unwrap();
    assert_eq!(r["query"], REGISTRY_SUMMARY_QUERY);
    assert!(r["variables"].is_null());
    match sql_variables("q") {
        Json::Object(m) => {
            assert_eq!(m.len(), 1);
            assert_eq!(m[0].0, "sql");
            assert_eq!(text(&m[0].1), Some("q"));
        }
        _ => panic!("not an object"),
    }
}

#[test]
fn envelope_and_text() {
    let env = request_envelope("{ q }", &Json::Null);
    match &env {
        Json::Object(m) => {
            assert_eq!(m.len(), 2);
            assert_eq!(m[0].0, "query");
            assert_eq!(text(&m[0].1), Some("{ q }"));
            assert_eq!(m[1].0, "variables");
            assert!(matches!(m[1].1, Json::Null));
        }
        _ => panic!("not an object"),
    }
    assert_eq!(json_text(&env), "{\"query\":\"{ q }\",\"variables\":null}");
    assert_eq!(json_text(&Json::Array(vec![Json::Number(Some(-3)), Json::Bool(false)])), "[-3,false]");
}
