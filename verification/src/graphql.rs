//! The GraphQL queries sent to the server and the reading of its replies.

use vstd::prelude::*;
use crate::text::{decimal, joined, texts, push_text, push_decimal, owned, join_texts};
use crate::json::{Json, JsonView, json_view, json_views, field, items_field, text_field, text_value};

verus! {

/// The `sql` query; its variable `$sql` holds the statement.
pub const SQL_QUERY: &'static str = "query($sql: String!) { sql(query: $sql) { columns rows commandTag } }";

/// The `registrySummary` query.
pub const REGISTRY_SUMMARY_QUERY: &'static str =
    "{ registrySummary { total connectable ga beta pgCompatible planned } }";

/// The `message` strings of GraphQL errors, in order; errors without one are skipped.
pub open spec fn error_messages(errors: Seq<JsonView>) -> Seq<Seq<char>>
    decreases errors.len(),
{
    if errors.len() == 0 {
        Seq::empty()
    } else {
        match text_field(errors.last(), "message"@) {
            Some(m) => error_messages(errors.drop_last()).push(m),
            None => error_messages(errors.drop_last()),
        }
    }
}

/// The error text when `data.<name>` is missing.
pub open spec fn missing_data(name: Seq<char>) -> Seq<char> {
    "レスポンスに data."@ + name + " が見つかりません"@
}

/// Reading `data.<name>` from a reply: a non-empty `errors` array gives its
/// messages joined by `; `; otherwise the member `name` of `data`, or an
/// error when it is missing.
pub open spec fn extracted(body: JsonView, name: Seq<char>) -> Result<JsonView, Seq<char>> {
    let errors = match items_field(body, "errors"@) {
        Some(e) => e,
        None => Seq::empty(),
    };
    if errors.len() > 0 {
        Err("GraphQL errors: "@ + joined(error_messages(errors), "; "@))
    } else {
        match field(body, "data"@) {
            Some(d) => match field(d, name) {
                Some(x) => Ok(x),
                None => Err(missing_data(name)),
            },
            None => Err(missing_data(name)),
        }
    }
}

/// The value of a result of [`extract_data`].
pub open spec fn extracted_of(r: Result<Json, String>) -> Result<JsonView, Seq<char>> {
    match r {
        Ok(j) => Ok(j@),
        Err(e) => Err(e@),
    }
}

fn messages_of(errors: &Vec<Json>) -> (r: Vec<String>)
    ensures
        texts(r@) == error_messages(json_views(errors@)),
{
    let ghost ev = json_views(errors@);
    let mut out: Vec<String> = Vec::new();
    let mut i: usize = 0;
    while i < errors.len()
        invariant
            i <= errors@.len(),
            ev == json_views(errors@),
            texts(out@) == error_messages(ev.take(i as int)),
        decreases errors@.len() - i,
    {
        proof {
            let q = ev.take(i + 1);
            assert(q.drop_last() =~= ev.take(i as int));
            assert(q.last() == ev[i as int]);
        }
        let ghost before = out@;
        match errors[i].get("message") {
            Some(m) => match m.as_text() {
                Some(s) => {
                    out.push(s.clone());
                    assert(texts(out@) =~= texts(before).push(s@));
                },
                None => {},
            },
            None => {},
        }
        i = i + 1;
    }
    proof {
        assert(ev.take(errors@.len() as int) =~= ev);
    }
    out
}

fn missing(name: &str) -> (r: String)
    ensures
        r@ == missing_data(name@),
{
    let mut s = owned("レスポンスに data.");
    push_text(&mut s, name);
    push_text(&mut s, " が見つかりません");
    s
}

/// Takes `data.<name>` out of a GraphQL reply, or the GraphQL errors as text.
pub fn extract_data(body: &Json, name: &str) -> (r: Result<Json, String>)
    ensures
        extracted_of(r) == extracted(body@, name@),
{
    match body.get("errors") {
        Some(e) => match e.as_items() {
            Some(errors) => {
                if errors.len() > 0 {
                    let msgs = messages_of(errors);
                    let mut s = owned("GraphQL errors: ");
                    push_text(&mut s, join_texts(&msgs, "; ").as_str());
                    return Err(s);
                }
            },
            None => {},
        },
        None => {},
    }
    match body.get("data") {
        Some(d) => match d.get(name) {
            Some(x) => Ok(x.duplicate()),
            None => Err(missing(name)),
        },
        None => Err(missing(name)),
    }
}

/// The JSON values of the outside JSON library, carried through opaquely.
#[verifier::external_type_specification]
#[verifier::external_body]
pub struct ExJsonValue(serde_json::Value);

/// The document that a reply text parses to, when it is valid JSON.
pub uninterp spec fn parsed_json(text: Seq<char>) -> Option<JsonView>;

/// The parser's description of why a reply text is not valid JSON.
pub uninterp spec fn json_error_text(text: Seq<char>) -> Seq<char>;

/// The JSON text of a document.
pub uninterp spec fn json_text_of(v: JsonView) -> Seq<char>;

/// Reading a reply text: its document, or why it is not JSON.
pub open spec fn parsed_reply(text: Seq<char>) -> Result<JsonView, Seq<char>> {
    match parsed_json(text) {
        Some(j) => Ok(j),
        None => Err("invalid JSON from server: "@ + json_error_text(text)),
    }
}

/// A parsed document as the library's value: each variant moved to its
/// counterpart (a number keeps its value when it fits in `i64`).
#[verifier::external_body]
fn json_of_value(v: serde_json::Value) -> Json {
    match v {
        serde_json::Value::Null => Json::Null,
        serde_json::Value::Bool(b) => Json::Bool(b),
        serde_json::Value::Number(n) => Json::Number(n.as_i64()),
        serde_json::Value::String(s) => Json::Str(s),
        serde_json::Value::Array(items) => Json::Array(items.into_iter().map(json_of_value).collect()),
        serde_json::Value::Object(members) => Json::Object(
            members.into_iter().map(|(k, x)| (k, json_of_value(x))).collect(),
        ),
    }
}

/// Parses a JSON text.
/// Trusted: `serde_json::from_str::<serde_json::Value>`, whose result depends
/// on the text alone: the document when the text is valid JSON (named
/// `parsed_json`), otherwise the error's text (named `json_error_text`).
/// The parsed document is moved variant by variant into a [`Json`].
#[verifier::external_body]
pub fn parse_json(text: &str) -> (r: Result<Json, String>)
    ensures
        match r {
            Ok(j) => parsed_json(text@) == Some(j@),
            Err(e) => parsed_json(text@) is None && e@ == json_error_text(text@),
        },
{
    match serde_json::from_str::<serde_json::Value>(text) {
        Ok(v) => Ok(json_of_value(v)),
        Err(e) => Err(e.to_string()),
    }
}

/// Reads an HTTP reply: a failure status gives `HTTP <status>`; otherwise
/// the body is parsed as JSON, a parse failure giving
/// `invalid JSON from server: <why>`.
pub fn read_response(ok: bool, status: u16, text: &str) -> (r: Result<Json, String>)
    ensures
        extracted_of(r) == if ok {
            parsed_reply(text@)
        } else {
            Err("HTTP "@ + decimal(status as nat))
        },
{
    if !ok {
        let mut s = owned("HTTP ");
        push_decimal(&mut s, status as u64);
        return Err(s);
    }
    match parse_json(text) {
        Ok(j) => Ok(j),
        Err(e) => {
            let mut s = owned("invalid JSON from server: ");
            push_text(&mut s, e.as_str());
            Err(s)
        },
    }
}

/// A JSON document of the outside JSON library, moved variant by variant
/// from a [`Json`]; a number kept without its value (one that is not an
/// `i64`) has no counterpart and is moved as `null`.
#[verifier::external_body]
fn value_of_json(j: &Json) -> serde_json::Value {
    match j {
        Json::Null => serde_json::Value::Null,
        Json::Bool(b) => serde_json::Value::Bool(*b),
        Json::Number(Some(n)) => serde_json::Value::from(*n),
        Json::Number(None) => serde_json::Value::Null,
        Json::Str(s) => serde_json::Value::String(s.clone()),
        Json::Array(items) => serde_json::Value::Array(items.iter().map(value_of_json).collect()),
        Json::Object(members) => serde_json::Value::Object(
            members.iter().map(|(k, x)| (k.clone(), value_of_json(x))).collect(),
        ),
    }
}

/// The JSON text of a document.
/// Trusted: `serde_json::Value::to_string`, whose text depends on the
/// document alone (named `json_text_of`); it cannot fail.
#[verifier::external_body]
pub fn json_text(v: &Json) -> (r: String)
    ensures
        r@ == json_text_of(v@),
{
    value_of_json(v).to_string()
}

/// The GraphQL request object: the query and its variables.
pub open spec fn envelope(query: Seq<char>, variables: JsonView) -> JsonView {
    JsonView::Object(seq![("query"@, JsonView::Str(query)), ("variables"@, variables)])
}

/// The GraphQL request object for a query and its variables.
pub fn request_envelope(query: &str, variables: &Json) -> (r: Json)
    ensures
        r@ == envelope(query@, variables@),
{
    let mut members: Vec<(String, Json)> = Vec::new();
    members.push((owned("query"), text_value(query)));
    members.push((owned("variables"), variables.duplicate()));
    let r = Json::Object(members);
    proof {
        let a = r@->Object_0;
        let b = envelope(query@, variables@)->Object_0;
        assert(a[0] == (members@[0].0@, json_view(members@[0].1)));
        assert(a[1] == (members@[1].0@, json_view(members@[1].1)));
        assert(a =~= b);
    }
    r
}

/// The variables of the `sql` query: `{"sql": <statement>}`.
pub fn sql_variables(sql: &str) -> (r: Json)
    ensures
        r@ == JsonView::Object(seq![("sql"@, JsonView::Str(sql@))]),
{
    let mut members: Vec<(String, Json)> = Vec::new();
    members.push((owned("sql"), text_value(sql)));
    let r = Json::Object(members);
    assert(r@->Object_0 =~= seq![("sql"@, JsonView::Str(sql@))]);
    r
}

/// The body of the `sql` request for a statement.
pub fn sql_request_body(sql: &str) -> (r: String)
    ensures
        r@ == json_text_of(
            envelope(SQL_QUERY@, JsonView::Object(seq![("sql"@, JsonView::Str(sql@))])),
        ),
{
    let variables = sql_variables(sql);
    json_text(&request_envelope(SQL_QUERY, &variables))
}

/// The body of the `registrySummary` request (no variables).
pub fn registry_request_body() -> (r: String)
    ensures
        r@ == json_text_of(envelope(REGISTRY_SUMMARY_QUERY@, JsonView::Null)),
{
    json_text(&request_envelope(REGISTRY_SUMMARY_QUERY, &Json::Null))
}

/// The error messages read from a reply are the `message` strings of the
/// errors, in order and with repeats; errors without one are skipped.
pub proof fn lemma_error_messages_in_order(errors: Seq<JsonView>)
    ensures
        error_messages(errors) == errors.filter(|e: JsonView| text_field(e, "message"@) is Some).map_values(
            |e: JsonView| text_field(e, "message"@)->Some_0,
        ),
    decreases errors.len(),
{
    let pred = |e: JsonView| text_field(e, "message"@) is Some;
    let g = |e: JsonView| text_field(e, "message"@)->Some_0;
    if errors.len() == 0 {
        reveal(Seq::filter);
        assert(errors.filter(pred).map_values(g) =~= Seq::<Seq<char>>::empty());
    } else {
        let p = errors.drop_last();
        lemma_error_messages_in_order(p);
        assert(p.push(errors.last()) =~= errors);
        p.lemma_filter_push(errors.last(), pred);
        if pred(errors.last()) {
            assert(p.filter(pred).push(errors.last()).map_values(g) =~= p.filter(pred).map_values(
                g,
            ).push(g(errors.last())));
        }
    }
}

} // verus!
