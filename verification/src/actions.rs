//! The decisions of the page's event handlers: which endpoint a request goes
//! to, whether a statement is run, and what is shown once a reply (or a
//! failure) is back. The page performs the requests and the DOM updates.

use vstd::prelude::*;
use crate::text::{blank, is_blank, push_text, owned, text_eq};
use crate::json::{Json, JsonView};
use crate::graphql::{extract_data, extracted};
use crate::profiles::{SiteProfile, active_endpoint, chosen, endpoint_of, opt_view, profile_views};
use crate::render::{
    Rendered,
    render_query_result,
    render_query_result_offline_sample,
    render_registry_summary,
    render_registry_summary_offline_sample,
    query_rendering,
    summary_rendering,
    sample_query,
    sample_summary,
};

verus! {

/// The statement placed in the SQL box when the page opens.
pub const DEFAULT_SQL: &'static str = "SELECT * FROM aruaru_log LIMIT 10;";

/// The endpoint a request goes to: the endpoint box when it is not blank,
/// otherwise the active site's endpoint.
pub fn current_endpoint(input: &str, profiles: &Vec<SiteProfile>, active_id: &Option<String>) -> (r:
    String)
    ensures
        r@ == if blank(input@) {
            match chosen(profile_views(profiles@), opt_view(*active_id)) {
                Some(p) => endpoint_of(p),
                None => "http://localhost:4000/graphql"@,
            }
        } else {
            input@
        },
{
    if is_blank(input) {
        active_endpoint(profiles, active_id)
    } else {
        owned(input)
    }
}

/// Whether a key press in the SQL box runs the statement: Enter with Ctrl or Cmd.
pub fn is_run_shortcut(key: &str, ctrl: bool, meta: bool) -> (r: bool)
    ensures
        r == (key@ == "Enter"@ && (ctrl || meta)),
{
    text_eq(key, "Enter") && (ctrl || meta)
}

/// The display of a tab panel: shown (`block`) when it is the chosen tab,
/// hidden (`none`) otherwise.
pub fn tab_display(name: &str, tab: &str) -> (r: &'static str)
    ensures
        r@ == if name@ == tab@ {
            "block"@
        } else {
            "none"@
        },
{
    if text_eq(name, tab) {
        "block"
    } else {
        "none"
    }
}

/// The status line that refuses to run a blank statement; `None` when the
/// statement is run.
pub fn on_run_sql(sql: &str) -> (r: Option<String>)
    ensures
        match r {
            Some(m) => blank(sql@) && m@ == "SQLを入力してください。"@,
            None => !blank(sql@),
        },
{
    if is_blank(sql) {
        Some(owned("SQLを入力してください。"))
    } else {
        None
    }
}

/// What a request's outcome changes on the page: the result area and the
/// status line.
pub struct Shown {
    pub rendered: Rendered,
    pub status: String,
}

/// The status after a request: done, an unreadable reply, or no connection.
pub open spec fn reply_status(endpoint: Seq<char>, reply: Result<Result<JsonView, Seq<char>>, Seq<char>>) -> Seq<char> {
    match reply {
        Ok(Ok(_)) => "実行完了(aruaru-dbから取得)。"@,
        Ok(Err(e)) => "サーバー応答を解釈できませんでした("@ + e + ")。オフラインサンプルを表示しています。"@,
        Err(e) => "aruaru-db ("@ + endpoint + ") に接続できませんでした: "@ + e
            + "。オフラインサンプルを表示しています。"@,
    }
}

/// The value of a request's outcome: the parsed reply, or the failure text.
pub open spec fn reply_of(response: Result<Json, String>) -> Result<JsonView, Seq<char>> {
    match response {
        Ok(b) => Ok(b@),
        Err(e) => Err(e@),
    }
}

/// The reading of a request's outcome: the member `name` of the reply's data,
/// or why it is missing; or the failure of the request.
pub open spec fn read_reply(response: Result<JsonView, Seq<char>>, name: Seq<char>) -> Result<
    Result<JsonView, Seq<char>>,
    Seq<char>,
> {
    match response {
        Ok(body) => Ok(extracted(body, name)),
        Err(e) => Err(e),
    }
}

fn status_for(endpoint: &str, body_read: &Option<Result<Json, String>>, failure: &str) -> (r:
    String)
    ensures
        r@ == match body_read {
            Some(Ok(_)) => "実行完了(aruaru-dbから取得)。"@,
            Some(Err(e)) => "サーバー応答を解釈できませんでした("@ + e@ + ")。オフラインサンプルを表示しています。"@,
            None => "aruaru-db ("@ + endpoint@ + ") に接続できませんでした: "@ + failure@
                + "。オフラインサンプルを表示しています。"@,
        },
{
    match body_read {
        Some(Ok(_)) => owned("実行完了(aruaru-dbから取得)。"),
        Some(Err(e)) => {
            let mut s = owned("サーバー応答を解釈できませんでした(");
            push_text(&mut s, e.as_str());
            push_text(&mut s, ")。オフラインサンプルを表示しています。");
            s
        },
        None => {
            let mut s = owned("aruaru-db (");
            push_text(&mut s, endpoint);
            push_text(&mut s, ") に接続できませんでした: ");
            push_text(&mut s, failure);
            push_text(&mut s, "。オフラインサンプルを表示しています。");
            s
        },
    }
}

/// What running `sql` against `endpoint` shows once the request is over:
/// the `sql` data as a table when the reply holds it; otherwise the offline
/// sample for `sql`, with the reason in the status line.
pub fn on_sql_reply(sql: &str, endpoint: &str, response: &Result<Json, String>) -> (r: Shown)
    ensures
        ({
            let reply = read_reply(reply_of(*response), "sql"@);
            &&& r.rendered@ == match reply {
                Ok(Ok(data)) => query_rendering(data, false),
                _ => query_rendering(sample_query(sql@), true),
            }
            &&& r.status@ == reply_status(endpoint@, reply)
        }),
{
    match response {
        Ok(body) => {
            let read = extract_data(body, "sql");
            let rendered = match &read {
                Ok(data) => render_query_result(data, false),
                Err(_) => render_query_result_offline_sample(sql),
            };
            let status = status_for(endpoint, &Some(read), "");
            Shown { rendered, status }
        },
        Err(e) => {
            let rendered = render_query_result_offline_sample(sql);
            let status = status_for(endpoint, &None, e.as_str());
            Shown { rendered, status }
        },
    }
}

/// What asking `endpoint` for the registry summary shows once the request is
/// over: the summary when the reply holds it; otherwise the offline sample,
/// with the reason in the status line.
pub fn on_registry_reply(endpoint: &str, response: &Result<Json, String>) -> (r: Shown)
    ensures
        ({
            let reply = read_reply(reply_of(*response), "registrySummary"@);
            &&& r.rendered@ == match reply {
                Ok(Ok(data)) => summary_rendering(data, false),
                _ => summary_rendering(sample_summary(), true),
            }
            &&& r.status@ == reply_status(endpoint@, reply)
        }),
{
    match response {
        Ok(body) => {
            let read = extract_data(body, "registrySummary");
            let rendered = match &read {
                Ok(data) => render_registry_summary(data, false),
                Err(_) => render_registry_summary_offline_sample(),
            };
            let status = status_for(endpoint, &Some(read), "");
            Shown { rendered, status }
        },
        Err(e) => {
            let rendered = render_registry_summary_offline_sample();
            let status = status_for(endpoint, &None, e.as_str());
            Shown { rendered, status }
        },
    }
}

} // verus!
