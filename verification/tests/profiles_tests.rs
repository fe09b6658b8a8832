use aruaru_web::profiles::{
    active_endpoint, active_profile_name, clear_form, default_profiles, load_profiles, new_id,
    normalize_path, delete_site, on_delete_site, delete_prompt, on_import_sites, on_edit_site, on_save_site, on_select_site, on_test_site,
    parse_port, render_site_manager, test_result_message, SaveError, SiteForm, SiteProfile,
};

fn site(id: &str, name: &str, host: &str, port: u16, path: &str) -> SiteProfile {
    SiteProfile {
        id: id.to_string(),
        name: name.to_string(),
        purpose: "other".to_string(),
        protocol: "https".to_string(),
        host: host.to_string(),
        port,
        path: path.to_string(),
        backend_stack: "PHP + Laravel".to_string(),
    }
}

fn ids(ps: &[SiteProfile]) -> Vec<String> {
    ps.iter().map(|p| p.id.clone()).collect()
}

fn form(id: &str, name: &str, host: &str, port: &str, path: &str) -> SiteForm {
    SiteForm {
        id: id.to_string(),
        name: name.to_string(),
        purpose: "self".to_string(),
        protocol: "http".to_string(),
        host: host.to_string(),
        port: port.to_string(),
        path: path.to_string(),
        stack: "Python + FastAPI".to_string(),
    }
}

#[test]
fn endpoint_joins_parts() {
    let p = site("a", "A", "203.0.113.10", 8443, "/api");
    assert_eq!(p.endpoint(), "https://203.0.113.10:8443/api");
}

#[test]
fn default_profiles_are_the_two_seeds() {
    let d = default_profiles();
    assert_eq!(ids(&d), vec!["seed-aruaru-web", "seed-other-example"]);
    assert_eq!(d[0].endpoint(), "http://localhost:4000/graphql");
    assert_eq!(d[1].endpoint(), "http://tool.example.local:9000/graphql");
    assert_eq!(d[0].name, "aruaru-db (ローカル)");
    assert_eq!(d[1].backend_stack, "任意(PHP + Laravel / Python + FastAPI / Rust + Poem など)");
}

#[test]
fn load_uses_stored_list() {
    let (ps, save) = load_profiles(Some(vec![site("x", "X", "h", 1, "/")]));
    assert_eq!(ids(&ps), vec!["x"]);
    assert!(!save);
}

#[test]
fn load_seeds_when_missing_or_empty() {
    let (ps, save) = load_profiles(None);
    assert_eq!(ids(&ps), vec!["seed-aruaru-web", "seed-other-example"]);
    assert!(save);
    let (ps, save) = load_profiles(Some(vec![]));
    assert_eq!(ps.len(), 2);
    assert!(save);
}

#[test]
fn active_endpoint_follows_active_id() {
    let ps = vec![site("a", "A", "a.example", 80, "/"), site("b", "B", "b.example", 81, "/g")];
    assert_eq!(active_endpoint(&ps, &Some("b".to_string())), "https://b.example:81/g");
    assert_eq!(active_endpoint(&ps, &Some("zzz".to_string())), "https://a.example:80/");
    assert_eq!(active_endpoint(&ps, &None), "https://a.example:80/");
    assert_eq!(active_endpoint(&vec![], &None), "http://localhost:4000/graphql");
}

#[test]
fn active_name_follows_active_id() {
    let ps = vec![site("a", "A", "a.example", 80, "/"), site("b", "B", "b.example", 81, "/g")];
    assert_eq!(active_profile_name(&ps, &Some("b".to_string())), "B");
    assert_eq!(active_profile_name(&ps, &None), "A");
    assert_eq!(active_profile_name(&vec![], &None), "(未設定)");
}

#[test]
fn new_id_uses_the_time() {
    assert_eq!(new_id(1_700_000_000_123), "site-1700000000123");
}

fn card(p: &SiteProfile, is_active: bool) -> String {
    let esc = aruaru_web::dom::esc;
    format!(
        r#"<div class="site-card{active_class}">
  <div class="site-card-main">
    <div class="site-card-title">{name} {badge}</div>
    <div class="site-card-meta muted">{purpose_label} ・ {endpoint}</div>
    <div class="site-card-stack muted">スタック: {stack}</div>
  </div>
  <div class="site-card-actions">
    <button class="site-select" data-id="{id}">選択</button>
    <button class="site-test" data-id="{id}">接続テスト</button>
    <button class="site-edit" data-id="{id}">編集</button>
    <button class="site-delete" data-id="{id}">削除</button>
    <span class="test-result muted" id="test-result-{id}"></span>
  </div>
</div>"#,
        active_class = if is_active { " active" } else { "" },
        name = esc(&p.name),
        badge = if is_active { "<span class=\"badge\">現在の接続</span>" } else { "" },
        purpose_label = if p.purpose == "aruaru-web" { "aruaru-web用" } else { "他の用途" },
        endpoint = esc(&p.endpoint()),
        stack = esc(&p.backend_stack),
        id = esc(&p.id),
    )
}

#[test]
fn site_list_marks_active_site() {
    let ps = vec![site("a", "A<1>", "a.example", 80, "/"), site("b", "B", "b.example", 81, "/g")];
    let html = render_site_manager(&ps, &Some("b".to_string()));
    assert_eq!(html, card(&ps[0], false) + &card(&ps[1], true));
}

#[test]
fn site_list_marks_first_site_when_none_active() {
    let mut ps = vec![site("a", "A", "a.example", 80, "/"), site("b", "B", "b.example", 81, "/g")];
    ps[1].purpose = "aruaru-web".to_string();
    let html = render_site_manager(&ps, &None);
    assert_eq!(html, card(&ps[0], true) + &card(&ps[1], false));
    assert!(html.contains("aruaru-web用"));
}

#[test]
fn site_list_empty_hint() {
    assert_eq!(
        render_site_manager(&vec![], &None),
        "<p class=\"muted\">登録済みサイトはありません。下のフォームから追加してください。</p>"
    );
}

#[test]
fn select_status_names_the_site() {
    let ps = vec![site("a", "A", "a.example", 80, "/"), site("b", "B", "b.example", 81, "/g")];
    assert_eq!(on_select_site(&ps, &Some("b".to_string())), "接続先を「B」に切り替えました。");
    assert_eq!(on_select_site(&ps, &None), "接続先を「A」に切り替えました。");
}

#[test]
fn delete_removes_site_and_moves_active() {
    let ps = vec![site("a", "A", "a", 1, "/"), site("b", "B", "b", 2, "/"), site("c", "C", "c", 3, "/")];
    let out = delete_site(ps, &Some("a".to_string()), "a");
    assert_eq!(ids(&out.profiles), vec!["b", "c"]);
    assert_eq!(out.activate, Some("b".to_string()));
}

#[test]
fn delete_of_other_site_keeps_active() {
    let ps = vec![site("a", "A", "a", 1, "/"), site("b", "B", "b", 2, "/")];
    let out = delete_site(ps, &Some("a".to_string()), "b");
    assert_eq!(ids(&out.profiles), vec!["a"]);
    assert_eq!(out.activate, None);
}

#[test]
fn delete_last_active_site_activates_nothing() {
    let ps = vec![site("a", "A", "a", 1, "/")];
    let out = delete_site(ps, &Some("a".to_string()), "a");
    assert!(out.profiles.is_empty());
    assert_eq!(out.activate, None);
}

#[test]
fn edit_fills_the_form() {
    let ps = vec![site("a", "A", "a.example", 8080, "/x")];
    let f = on_edit_site(&ps, "a").unwrap();
    assert_eq!(f.id, "a");
    assert_eq!(f.name, "A");
    assert_eq!(f.host, "a.example");
    assert_eq!(f.port, "8080");
    assert_eq!(f.path, "/x");
    assert_eq!(f.stack, "PHP + Laravel");
    assert_eq!(f.purpose, Some("other".to_string()));
    assert_eq!(f.protocol, Some("https".to_string()));
    assert!(on_edit_site(&ps, "missing").is_none());
}

#[test]
fn clear_form_values() {
    let f = clear_form();
    assert_eq!(f.id, "");
    assert_eq!(f.name, "");
    assert_eq!(f.host, "");
    assert_eq!(f.port, "8080");
    assert_eq!(f.path, "/graphql");
    assert_eq!(f.stack, "");
    assert_eq!(f.purpose, None);
    assert_eq!(f.protocol, None);
}

#[test]
fn parse_port_accepts_1_to_65535() {
    assert_eq!(parse_port("1"), Some(1));
    assert_eq!(parse_port(" 65535 "), Some(65535));
    assert_eq!(parse_port("+443"), Some(443));
    assert_eq!(parse_port("00080"), Some(80));
    assert_eq!(parse_port("0"), None);
    assert_eq!(parse_port("65536"), None);
    assert_eq!(parse_port("99999999999"), None);
    assert_eq!(parse_port("-1"), None);
    assert_eq!(parse_port("+"), None);
    assert_eq!(parse_port(""), None);
    assert_eq!(parse_port("80a"), None);
    assert_eq!(parse_port("8 0"), None);
}

#[test]
fn normalize_path_cases() {
    assert_eq!(normalize_path("  "), "/graphql");
    assert_eq!(normalize_path("/api"), "/api");
    assert_eq!(normalize_path("api"), "/api");
    assert_eq!(normalize_path(" api"), "/ api");
}

#[test]
fn save_new_site_becomes_active_when_none() {
    let out = on_save_site(vec![], &None, form("", "N", "n.example", "8080", "g"), 42).ok().unwrap();
    assert_eq!(out.profiles.len(), 1);
    let p = &out.profiles[0];
    assert_eq!(p.id, "site-42");
    assert_eq!(p.path, "/g");
    assert_eq!(p.port, 8080);
    assert_eq!(p.purpose, "self");
    assert_eq!(p.protocol, "http");
    assert_eq!(p.backend_stack, "Python + FastAPI");
    assert_eq!(out.activate, Some("site-42".to_string()));
    assert_eq!(out.status, "サイト情報を保存しました。");
}

#[test]
fn save_new_site_keeps_existing_active() {
    let ps = vec![site("a", "A", "a", 1, "/")];
    let out = on_save_site(ps, &Some("a".to_string()), form("", "N", "n", "1", ""), 7).ok().unwrap();
    assert_eq!(ids(&out.profiles), vec!["a", "site-7"]);
    assert_eq!(out.profiles[1].path, "/graphql");
    assert_eq!(out.activate, None);
}

#[test]
fn save_edits_existing_site() {
    let ps = vec![site("a", "A", "a", 1, "/"), site("b", "B", "b", 2, "/")];
    let out = on_save_site(ps, &None, form("b", "B2", "b2", "3000", "/v"), 9).ok().unwrap();
    assert_eq!(ids(&out.profiles), vec!["a", "b"]);
    assert_eq!(out.profiles[1].name, "B2");
    assert_eq!(out.profiles[1].host, "b2");
    assert_eq!(out.profiles[1].port, 3000);
    assert_eq!(out.profiles[1].path, "/v");
    assert_eq!(out.activate, None);
}

#[test]
fn save_with_unknown_id_changes_nothing() {
    let ps = vec![site("a", "A", "a", 1, "/")];
    let out = on_save_site(ps, &None, form("zz", "B2", "b2", "3000", "/v"), 9).ok().unwrap();
    assert_eq!(ids(&out.profiles), vec!["a"]);
    assert_eq!(out.profiles[0].name, "A");
}

#[test]
fn save_requires_name_and_host() {
    match on_save_site(vec![], &None, form("", "  ", "h", "80", "/"), 1) {
        Err(e) => {
            assert!(matches!(e, SaveError::MissingNameOrHost));
            assert_eq!(e.message(), "サイト名と接続先ホスト(IP/ドメイン)は必須です。");
        }
        Ok(_) => panic!("blank name accepted"),
    }
    assert!(matches!(
        on_save_site(vec![], &None, form("", "n", "", "80", "/"), 1),
        Err(SaveError::MissingNameOrHost)
    ));
}

#[test]
fn save_rejects_bad_port() {
    match on_save_site(vec![], &None, form("", "n", "h", "70000", "/"), 1) {
        Err(e) => {
            assert!(matches!(&e, SaveError::InvalidPort(raw) if raw == "70000"));
            assert_eq!(e.message(), "ポート番号が不正です(1〜65535の数値を入力してください): \"70000\"");
        }
        Ok(_) => panic!("bad port accepted"),
    }
}

#[test]
fn edit_then_save_keeps_list() {
    let ps = vec![site("a", "A", "a", 443, "/x"), site("b", "B", "b", 2, "/")];
    let f = on_edit_site(&ps, "a").unwrap();
    let form = SiteForm {
        id: f.id,
        name: f.name,
        purpose: f.purpose.unwrap(),
        protocol: f.protocol.unwrap(),
        host: f.host,
        port: f.port,
        path: f.path,
        stack: f.stack,
    };
    let expected: Vec<(String, String, u16, String)> =
        ps.iter().map(|p| (p.id.clone(), p.name.clone(), p.port, p.path.clone())).collect();
    let out = on_save_site(ps, &None, form, 5).ok().unwrap();
    let got: Vec<(String, String, u16, String)> =
        out.profiles.iter().map(|p| (p.id.clone(), p.name.clone(), p.port, p.path.clone())).collect();
    assert_eq!(got, expected);
}

#[test]
fn test_site_target_and_message() {
    let ps = vec![site("a", "A", "a.example", 80, "/")];
    let t = on_test_site(&ps, "a").unwrap();
    assert_eq!(t.result_id, "test-result-a");
    assert_eq!(t.endpoint, "https://a.example:80/");
    assert!(on_test_site(&ps, "b").is_none());
    assert_eq!(t.pending, "確認中…");
    assert_eq!(test_result_message(&Ok(200)), "✅ 接続成功");
    assert_eq!(test_result_message(&Ok(404)), "✅ 接続成功");
    assert_eq!(test_result_message(&Err("HTTP 500".to_string())), "❌ 接続失敗: HTTP 500");
}

#[test]
fn parse_port_agrees_with_u32_parsing() {
    let cases = [
        "0", "1", "+1", "++1", "-0", " 8080\t", "\u{3000}443\u{3000}", "65535", "65536", "4294967295",
        "4294967296", "１２３", "٣", "", " ", "+", "1_000", "0x10", "080", "1e3",
    ];
    for c in cases {
        let expected = c
            .trim()
            .parse::<u32>()
            .ok()
            .filter(|p| (1..=65535).contains(p))
            .map(|p| p as u16);
        assert_eq!(parse_port(c), expected, "case {c:?}");
    }
}

#[test]
fn delete_asks_first() {
    let ps = vec![site("a", "A", "a", 1, "/"), site("b", "B", "b", 2, "/")];
    assert_eq!(delete_prompt(&ps, "b"), "サイト「B」を削除しますか?");
    assert_eq!(delete_prompt(&ps, "x"), "サイト「x」を削除しますか?");
}

#[test]
fn cancelled_delete_changes_nothing() {
    let ps = vec![site("a", "A", "a", 1, "/"), site("b", "B", "b", 2, "/")];
    let out = on_delete_site(ps, &Some("a".to_string()), "a", false);
    assert_eq!(ids(&out.profiles), vec!["a", "b"]);
    assert_eq!(out.activate, None);
}

#[test]
fn confirmed_delete_deletes() {
    let ps = vec![site("a", "A", "a", 1, "/"), site("b", "B", "b", 2, "/")];
    let out = on_delete_site(ps, &Some("a".to_string()), "a", true);
    assert_eq!(ids(&out.profiles), vec!["b"]);
    assert_eq!(out.activate, Some("b".to_string()));
}

#[test]
fn import_replaces_with_non_empty_list() {
    let out = on_import_sites(Ok(vec![site("a", "A", "a", 1, "/"), site("b", "B", "b", 2, "/")]));
    assert_eq!(ids(&out.profiles.unwrap()), vec!["a", "b"]);
    assert_eq!(out.status, "2 件のサイトをインポートしました。");
    let empty = on_import_sites(Ok(vec![]));
    assert!(empty.profiles.is_none());
    assert_eq!(empty.status, "インポートするサイトがありません。");
    let bad = on_import_sites(Err("EOF while parsing".to_string()));
    assert!(bad.profiles.is_none());
    assert_eq!(bad.status, "JSONを解釈できませんでした: EOF while parsing");
}
