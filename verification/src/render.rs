//! Markup of SQL results and registry summaries, and the CSV export of the
//! latest result.

use vstd::prelude::*;
use crate::text::{decimal, signed_decimal, joined, texts, push_text, push_char, push_decimal, push_signed_decimal, owned, join_texts, lemma_concat_step, lemma_concat_none};
use crate::dom::{esc, escaped, lemma_escaped_is_inert};
use crate::json::{Json, JsonView, json_view, json_views, items_field, text_field, int_field, text_of, items_of, text_value};

verus! {

/// The columns and rows of a query result.
pub struct QueryResult {
    pub columns: Vec<String>,
    pub rows: Vec<Vec<String>>,
}

/// The value of a [`QueryResult`]: column names and rows of cells.
pub struct QueryResultView {
    pub columns: Seq<Seq<char>>,
    pub rows: Seq<Seq<Seq<char>>>,
}

/// The cells of a list of rows.
pub open spec fn rows_view(rows: Seq<Vec<String>>) -> Seq<Seq<Seq<char>>> {
    Seq::new(rows.len(), |i: int| texts(rows[i]@))
}

impl View for QueryResult {
    type V = QueryResultView;

    open spec fn view(&self) -> QueryResultView {
        QueryResultView { columns: texts(self.columns@), rows: rows_view(self.rows@) }
    }
}

/// The view of an optional result.
pub open spec fn result_view(r: Option<QueryResult>) -> Option<QueryResultView> {
    match r {
        Some(q) => Some(q@),
        None => None,
    }
}

/// What a rendering produces: the markup of the result area, the result kept
/// for the CSV export, and whether the export button is enabled.
pub struct Rendered {
    pub html: String,
    pub last_result: Option<QueryResult>,
    pub export_enabled: bool,
}

/// The value of a [`Rendered`].
pub struct RenderedView {
    pub html: Seq<char>,
    pub last_result: Option<QueryResultView>,
    pub export_enabled: bool,
}

impl View for Rendered {
    type V = RenderedView;

    open spec fn view(&self) -> RenderedView {
        RenderedView {
            html: self.html@,
            last_result: result_view(self.last_result),
            export_enabled: self.export_enabled,
        }
    }
}

/// `f` with every `"` doubled.
pub open spec fn doubled_quotes(f: Seq<char>) -> Seq<char>
    decreases f.len(),
{
    if f.len() == 0 {
        Seq::empty()
    } else {
        doubled_quotes(f.drop_last()) + if f.last() == '"' {
            seq!['"', '"']
        } else {
            seq![f.last()]
        }
    }
}

/// One CSV field: quoted, with inner quotes doubled.
pub open spec fn csv_field(f: Seq<char>) -> Seq<char> {
    seq!['"'] + doubled_quotes(f) + seq!['"']
}

/// The CSV fields of a row.
pub open spec fn csv_fields(fields: Seq<Seq<char>>) -> Seq<Seq<char>> {
    Seq::new(fields.len(), |i: int| csv_field(fields[i]))
}

/// One CSV line (without its line break): the quoted fields joined by commas.
pub open spec fn csv_line(fields: Seq<Seq<char>>) -> Seq<char> {
    joined(csv_fields(fields), ","@)
}

/// The CSV lines of the first `k` rows, each followed by a line break.
pub open spec fn csv_lines(rows: Seq<Seq<Seq<char>>>, k: nat) -> Seq<char>
    decreases k,
{
    if k == 0 || k > rows.len() {
        Seq::empty()
    } else {
        csv_lines(rows, (k - 1) as nat) + csv_line(rows[k - 1]) + seq!['\n']
    }
}

/// The CSV text of a result: the header line, then one line per row.
pub open spec fn csv_text(q: QueryResultView) -> Seq<char> {
    csv_line(q.columns) + seq!['\n'] + csv_lines(q.rows, q.rows.len())
}

fn csv_quote(f: &str) -> (r: String)
    ensures
        r@ == csv_field(f@),
{
    let mut out = String::new();
    push_char(&mut out, '"');
    for c in it: f.chars()
        invariant
            it.seq() == f@,
            out@ == seq!['"'] + doubled_quotes(f@.take(it.index() as int)),
    {
        let ghost before = f@.take(it.index() as int);
        if c == '"' {
            push_char(&mut out, '"');
            push_char(&mut out, '"');
        } else {
            push_char(&mut out, c);
        }
        proof {
            let after = f@.take(it.index() + 1);
            assert(after.drop_last() =~= before);
            assert(after.last() == c);
            assert(out@ =~= seq!['"'] + doubled_quotes(after));
        }
    }
    proof {
        assert(f@.take(f@.len() as int) =~= f@);
    }
    push_char(&mut out, '"');
    out
}

/// One CSV line of `fields`.
pub fn csv_row(fields: &Vec<String>) -> (r: String)
    ensures
        r@ == csv_line(texts(fields@)),
{
    let mut quoted: Vec<String> = Vec::new();
    let mut i: usize = 0;
    while i < fields.len()
        invariant
            i <= fields@.len(),
            quoted@.len() == i,
            forall|k: int| 0 <= k < i ==> (#[trigger] quoted@[k])@ == csv_field(fields@[k]@),
        decreases fields@.len() - i,
    {
        quoted.push(csv_quote(fields[i].as_str()));
        i = i + 1;
    }
    assert(texts(quoted@) =~= csv_fields(texts(fields@)));
    join_texts(&quoted, ",")
}

/// The latest result as CSV text, when there is one.
pub fn last_result_as_csv(last: &Option<QueryResult>) -> (r: Option<String>)
    ensures
        match result_view(*last) {
            Some(q) => r is Some && r.unwrap()@ == csv_text(q),
            None => r is None,
        },
{
    match last {
        Some(q) => {
            let ghost rows = rows_view(q.rows@);
            let mut csv = csv_row(&q.columns);
            push_char(&mut csv, '\n');
            let ghost head = csv@;
            let mut i: usize = 0;
            while i < q.rows.len()
                invariant
                    i <= q.rows@.len(),
                    rows == rows_view(q.rows@),
                    csv@ == head + csv_lines(rows, i as nat),
                decreases q.rows@.len() - i,
            {
                let line = csv_row(&q.rows[i]);
                push_text(&mut csv, line.as_str());
                push_char(&mut csv, '\n');
                proof {
                    assert(csv@ =~= head + csv_lines(rows, (i + 1) as nat));
                }
                i = i + 1;
            }
            Some(csv)
        },
        None => None,
    }
}

/// A file for the browser to download.
pub struct Download {
    pub filename: String,
    pub content: String,
    pub mime: String,
}

/// The CSV download of the latest result, when there is one.
pub fn download_csv(last: &Option<QueryResult>) -> (r: Option<Download>)
    ensures
        match result_view(*last) {
            Some(q) => r is Some && r.unwrap().content@ == csv_text(q) && r.unwrap().filename@
                == "aruaru-web-result.csv"@ && r.unwrap().mime@ == "text/csv;charset=utf-8;"@,
            None => r is None,
        },
{
    match last_result_as_csv(last) {
        Some(csv) => Some(
            Download {
                filename: owned("aruaru-web-result.csv"),
                content: csv,
                mime: owned("text/csv;charset=utf-8;"),
            },
        ),
        None => None,
    }
}

/// `open`, the escaped item and `close`, for each of the first `k` items.
pub open spec fn wrap_each(items: Seq<Seq<char>>, open: Seq<char>, close: Seq<char>, k: nat) -> Seq<
    char,
>
    decreases k,
{
    if k == 0 || k > items.len() {
        Seq::empty()
    } else {
        wrap_each(items, open, close, (k - 1) as nat) + open + escaped(items[k - 1]) + close
    }
}

/// The table rows of the first `k` rows.
pub open spec fn body_rows(rows: Seq<Seq<Seq<char>>>, k: nat) -> Seq<char>
    decreases k,
{
    if k == 0 || k > rows.len() {
        Seq::empty()
    } else {
        body_rows(rows, (k - 1) as nat) + "<tr>"@ + wrap_each(
            rows[k - 1],
            "<td>"@,
            "</td>"@,
            rows[k - 1].len(),
        ) + "</tr>"@
    }
}

/// The markup of a result table after `preamble`: a size line, then the
/// header row (always shown, also for zero rows) and the rows.
pub open spec fn table_html(
    headers: Seq<Seq<char>>,
    rows: Seq<Seq<Seq<char>>>,
    preamble: Seq<char>,
) -> Seq<char> {
    preamble + "<p class=\"tag\">"@ + decimal(rows.len()) + " 行 &times; "@ + decimal(headers.len())
        + " 列</p>"@ + "<div class=\"table-scroll\"><table><thead><tr>"@ + wrap_each(
        headers,
        "<th>"@,
        "</th>"@,
        headers.len(),
    ) + "</tr></thead><tbody>"@ + body_rows(rows, rows.len()) + "</tbody></table></div>"@
}

fn push_wrapped(html: &mut String, items: &Vec<String>, open: &str, close: &str)
    ensures
        final(html)@ == old(html)@ + wrap_each(texts(items@), open@, close@, items@.len()),
{
    let ghost start = html@;
    let ghost its = texts(items@);
    let mut i: usize = 0;
    while i < items.len()
        invariant
            i <= items@.len(),
            its == texts(items@),
            html@ == start + wrap_each(its, open@, close@, i as nat),
        decreases items@.len() - i,
    {
        push_text(html, open);
        push_text(html, esc(items[i].as_str()).as_str());
        push_text(html, close);
        proof {
            assert(html@ =~= start + wrap_each(its, open@, close@, (i + 1) as nat));
        }
        i = i + 1;
    }
}

/// Renders a result table (the header row even for zero rows) and keeps the
/// result for the CSV export, which is enabled when there is a row.
pub fn render_table(headers: Vec<String>, rows: Vec<Vec<String>>, preamble_html: &str) -> (r:
    Rendered)
    ensures
        r@ == (RenderedView {
            html: table_html(texts(headers@), rows_view(rows@), preamble_html@),
            last_result: Some(QueryResultView { columns: texts(headers@), rows: rows_view(rows@) }),
            export_enabled: rows@.len() > 0,
        }),
{
    let ghost rs = rows_view(rows@);
    let mut html = owned(preamble_html);
    push_text(&mut html, "<p class=\"tag\">");
    push_decimal(&mut html, rows.len() as u64);
    push_text(&mut html, " 行 &times; ");
    push_decimal(&mut html, headers.len() as u64);
    push_text(&mut html, " 列</p>");
    push_text(&mut html, "<div class=\"table-scroll\"><table><thead><tr>");
    push_wrapped(&mut html, &headers, "<th>", "</th>");
    push_text(&mut html, "</tr></thead><tbody>");
    let ghost head = html@;
    let mut i: usize = 0;
    while i < rows.len()
        invariant
            i <= rows@.len(),
            rs == rows_view(rows@),
            html@ == head + body_rows(rs, i as nat),
        decreases rows@.len() - i,
    {
        push_text(&mut html, "<tr>");
        push_wrapped(&mut html, &rows[i], "<td>", "</td>");
        push_text(&mut html, "</tr>");
        proof {
            assert(html@ =~= head + body_rows(rs, (i + 1) as nat));
        }
        i = i + 1;
    }
    push_text(&mut html, "</tbody></table></div>");
    let has_rows = rows.len() > 0;
    Rendered {
        html,
        last_result: Some(QueryResult { columns: headers, rows }),
        export_enabled: has_rows,
    }
}

/// The number of `<` in `s`, i.e. of tags it opens or closes.
pub open spec fn count_lt(s: Seq<char>) -> nat
    decreases s.len(),
{
    if s.len() == 0 {
        0
    } else {
        count_lt(s.drop_last()) + if s.last() == '<' {
            1nat
        } else {
            0nat
        }
    }
}

/// The tags of the table rows of the first `k` rows: `<tr>`, `</tr>`, and a
/// `<td>` and `</td>` per cell.
pub open spec fn row_tags(rows: Seq<Seq<Seq<char>>>, k: nat) -> nat
    decreases k,
{
    if k == 0 || k > rows.len() {
        0
    } else {
        row_tags(rows, (k - 1) as nat) + 2 + 2 * rows[k - 1].len()
    }
}

proof fn lemma_count_lt_concat(a: Seq<char>, b: Seq<char>)
    ensures
        count_lt(a + b) == count_lt(a) + count_lt(b),
    decreases b.len(),
{
    if b.len() == 0 {
        assert(a + b =~= a);
    } else {
        lemma_count_lt_concat(a, b.drop_last());
        assert((a + b).drop_last() =~= a + b.drop_last());
    }
}

proof fn lemma_count_lt_none(s: Seq<char>)
    requires
        forall|i: int| 0 <= i < s.len() ==> #[trigger] s[i] != '<',
    ensures
        count_lt(s) == 0,
    decreases s.len(),
{
    if s.len() > 0 {
        lemma_count_lt_none(s.drop_last());
    }
}

proof fn lemma_escaped_no_tags(s: Seq<char>)
    ensures
        count_lt(escaped(s)) == 0,
{
    lemma_escaped_is_inert(s);
    let e = escaped(s);
    assert forall|i: int| 0 <= i < e.len() implies #[trigger] e[i] != '<' by {}
    lemma_count_lt_none(e);
}

proof fn lemma_wrap_each_tags(items: Seq<Seq<char>>, open: Seq<char>, close: Seq<char>, k: nat)
    requires
        k <= items.len(),
    ensures
        count_lt(wrap_each(items, open, close, k)) == k * (count_lt(open) + count_lt(close)),
    decreases k,
{
    if k > 0 {
        lemma_wrap_each_tags(items, open, close, (k - 1) as nat);
        let prev = wrap_each(items, open, close, (k - 1) as nat);
        let e = escaped(items[k - 1]);
        lemma_escaped_no_tags(items[k - 1]);
        lemma_count_lt_concat(prev, open);
        lemma_count_lt_concat(prev + open, e);
        lemma_count_lt_concat(prev + open + e, close);
        let c = count_lt(open) + count_lt(close);
        assert(wrap_each(items, open, close, k) == prev + open + e + close);
        assert((k - 1) * c + c == k * c) by (nonlinear_arith);
    } else {
        let c = count_lt(open) + count_lt(close);
        assert(wrap_each(items, open, close, k) == Seq::<char>::empty());
        assert(k * c == 0) by (nonlinear_arith)
            requires
                k == 0,
        ;
    }
}

proof fn lemma_tag_literals()
    ensures
        count_lt("<th>"@) == 1,
        count_lt("</th>"@) == 1,
        count_lt("<td>"@) == 1,
        count_lt("</td>"@) == 1,
        count_lt("<tr>"@) == 1,
        count_lt("</tr>"@) == 1,
{
    reveal_strlit("<th>");
    reveal_strlit("</th>");
    reveal_strlit("<td>");
    reveal_strlit("</td>");
    reveal_strlit("<tr>");
    reveal_strlit("</tr>");
    reveal_with_fuel(count_lt, 6);
}

proof fn lemma_body_rows_tags(rows: Seq<Seq<Seq<char>>>, k: nat)
    requires
        k <= rows.len(),
    ensures
        count_lt(body_rows(rows, k)) == row_tags(rows, k),
    decreases k,
{
    if k > 0 {
        lemma_body_rows_tags(rows, (k - 1) as nat);
        lemma_tag_literals();
        let prev = body_rows(rows, (k - 1) as nat);
        let cells = wrap_each(rows[k - 1], "<td>"@, "</td>"@, rows[k - 1].len());
        lemma_wrap_each_tags(rows[k - 1], "<td>"@, "</td>"@, rows[k - 1].len());
        lemma_count_lt_concat(prev, "<tr>"@);
        lemma_count_lt_concat(prev + "<tr>"@, cells);
        lemma_count_lt_concat(prev + "<tr>"@ + cells, "</tr>"@);
        assert(body_rows(rows, k) == prev + "<tr>"@ + cells + "</tr>"@);
        let n = rows[k - 1].len();
        assert(n * (1nat + 1nat) == 2 * n) by (nonlinear_arith);
    } else {
        assert(body_rows(rows, k) == Seq::<char>::empty());
    }
}

/// The result table starts with the preamble; its header row holds one cell
/// (two tags) per header, even for zero rows; its body holds one row per row
/// with one cell per value; escaped values add no tag. The result kept for
/// the export is the headers and rows shown.
pub proof fn lemma_table_shape(headers: Seq<Seq<char>>, rows: Seq<Seq<Seq<char>>>, preamble: Seq<char>)
    ensures
        table_html(headers, rows, preamble).take(preamble.len() as int) == preamble,
        count_lt(wrap_each(headers, "<th>"@, "</th>"@, headers.len())) == 2 * headers.len(),
        count_lt(body_rows(rows, rows.len())) == row_tags(rows, rows.len()),
{
    lemma_tag_literals();
    lemma_wrap_each_tags(headers, "<th>"@, "</th>"@, headers.len());
    assert(headers.len() * (1nat + 1nat) == 2 * headers.len()) by (nonlinear_arith);
    lemma_body_rows_tags(rows, rows.len());
    let t = table_html(headers, rows, preamble);
    let rest = t.subrange(preamble.len() as int, t.len() as int);
    assert(t =~= preamble + rest);
    assert(t.take(preamble.len() as int) =~= preamble);
}

/// The notice shown above offline sample data.
pub open spec fn banner_text() -> Seq<char> {
    "<p class=\"offline\">⚠ aruaru-db に接続できなかったため、実スキーマと同じ形のオフラインサンプルデータを表示しています。<code>cargo run -p aruaru-server</code>を起動し、「サイト管理」タブで接続先を合わせると実データが表示されます。</p>"@
}

/// The notice shown above offline sample data.
pub fn offline_banner() -> (r: &'static str)
    ensures
        r@ == banner_text(),
{
    "<p class=\"offline\">⚠ aruaru-db に接続できなかったため、実スキーマと同じ形のオフラインサンプルデータを表示しています。<code>cargo run -p aruaru-server</code>を起動し、「サイト管理」タブで接続先を合わせると実データが表示されます。</p>"
}

/// The strings among `items`, in order; other values are skipped.
pub open spec fn strings_in(items: Seq<JsonView>) -> Seq<Seq<char>>
    decreases items.len(),
{
    if items.len() == 0 {
        Seq::empty()
    } else {
        match text_of(items.last()) {
            Some(s) => strings_in(items.drop_last()).push(s),
            None => strings_in(items.drop_last()),
        }
    }
}

/// The cells of a row: each string as it is, any other value as empty text.
pub open spec fn cells_in(items: Seq<JsonView>) -> Seq<Seq<char>> {
    Seq::new(
        items.len(),
        |i: int|
            match text_of(items[i]) {
                Some(s) => s,
                None => Seq::empty(),
            },
    )
}

/// The rows among `items`: each array, as cells, in order; other values skipped.
pub open spec fn rows_in(items: Seq<JsonView>) -> Seq<Seq<Seq<char>>>
    decreases items.len(),
{
    if items.len() == 0 {
        Seq::empty()
    } else {
        match items_of(items.last()) {
            Some(cells) => rows_in(items.drop_last()).push(cells_in(cells)),
            None => rows_in(items.drop_last()),
        }
    }
}

/// The column names of a `QueryResultGql`: the strings of `columns`.
pub open spec fn columns_of(data: JsonView) -> Seq<Seq<char>> {
    match items_field(data, "columns"@) {
        Some(items) => strings_in(items),
        None => Seq::empty(),
    }
}

/// The rows of a `QueryResultGql`: the arrays of `rows`.
pub open spec fn rows_of(data: JsonView) -> Seq<Seq<Seq<char>>> {
    match items_field(data, "rows"@) {
        Some(items) => rows_in(items),
        None => Seq::empty(),
    }
}

/// What precedes a result table: the offline notice, then the command tag.
pub open spec fn query_preamble(data: JsonView, offline: bool) -> Seq<char> {
    (if offline {
        banner_text()
    } else {
        Seq::empty()
    }) + match text_field(data, "commandTag"@) {
        Some(tag) => "<p class=\"tag\">command: "@ + escaped(tag) + "</p>"@,
        None => Seq::empty(),
    }
}

/// The rendering of a `QueryResultGql`: a table when there is a column or a
/// row; otherwise a "no result" line, no kept result and no export.
pub open spec fn query_rendering(data: JsonView, offline: bool) -> RenderedView {
    let columns = columns_of(data);
    let rows = rows_of(data);
    let preamble = query_preamble(data, offline);
    if columns.len() == 0 && rows.len() == 0 {
        RenderedView {
            html: preamble + "<p class=\"muted\">結果はありません(0行)。</p>"@,
            last_result: None,
            export_enabled: false,
        }
    } else {
        RenderedView {
            html: table_html(columns, rows, preamble),
            last_result: Some(QueryResultView { columns, rows }),
            export_enabled: rows.len() > 0,
        }
    }
}

fn strings_of(items: &Vec<Json>) -> (r: Vec<String>)
    ensures
        texts(r@) == strings_in(json_views(items@)),
{
    let ghost iv = json_views(items@);
    let mut out: Vec<String> = Vec::new();
    let mut i: usize = 0;
    while i < items.len()
        invariant
            i <= items@.len(),
            iv == json_views(items@),
            texts(out@) == strings_in(iv.take(i as int)),
        decreases items@.len() - i,
    {
        proof {
            let q = iv.take(i + 1);
            assert(q.drop_last() =~= iv.take(i as int));
            assert(q.last() == iv[i as int]);
        }
        let ghost before = out@;
        match items[i].as_text() {
            Some(s) => {
                out.push(s.clone());
                assert(texts(out@) =~= texts(before).push(s@));
            },
            None => {},
        }
        i = i + 1;
    }
    proof {
        assert(iv.take(items@.len() as int) =~= iv);
    }
    out
}

fn cells_of(items: &Vec<Json>) -> (r: Vec<String>)
    ensures
        texts(r@) == cells_in(json_views(items@)),
{
    let mut out: Vec<String> = Vec::new();
    let mut i: usize = 0;
    while i < items.len()
        invariant
            i <= items@.len(),
            out@.len() == i,
            forall|k: int|
                0 <= k < i ==> (#[trigger] out@[k])@ == match text_of(json_views(items@)[k]) {
                    Some(s) => s,
                    None => Seq::empty(),
                },
        decreases items@.len() - i,
    {
        let cell = match items[i].as_text() {
            Some(s) => s.clone(),
            None => String::new(),
        };
        out.push(cell);
        i = i + 1;
    }
    assert(texts(out@) =~= cells_in(json_views(items@)));
    out
}

fn rows_of_items(items: &Vec<Json>) -> (r: Vec<Vec<String>>)
    ensures
        rows_view(r@) == rows_in(json_views(items@)),
{
    let ghost iv = json_views(items@);
    let mut out: Vec<Vec<String>> = Vec::new();
    let mut i: usize = 0;
    while i < items.len()
        invariant
            i <= items@.len(),
            iv == json_views(items@),
            rows_view(out@) == rows_in(iv.take(i as int)),
        decreases items@.len() - i,
    {
        proof {
            let q = iv.take(i + 1);
            assert(q.drop_last() =~= iv.take(i as int));
            assert(q.last() == iv[i as int]);
        }
        let ghost before = out@;
        match items[i].as_items() {
            Some(cells) => {
                let row = cells_of(cells);
                out.push(row);
                assert(rows_view(out@) =~= rows_view(before).push(cells_in(json_views(cells@))));
            },
            None => {},
        }
        i = i + 1;
    }
    proof {
        assert(iv.take(items@.len() as int) =~= iv);
    }
    out
}

/// Renders a `QueryResultGql { columns, rows, commandTag }` as a table.
pub fn render_query_result(data: &Json, offline: bool) -> (r: Rendered)
    ensures
        r@ == query_rendering(data@, offline),
{
    let columns: Vec<String> = match data.get("columns") {
        Some(c) => match c.as_items() {
            Some(items) => strings_of(items),
            None => Vec::new(),
        },
        None => Vec::new(),
    };
    assert(texts(columns@) =~= columns_of(data@));
    let rows: Vec<Vec<String>> = match data.get("rows") {
        Some(c) => match c.as_items() {
            Some(items) => rows_of_items(items),
            None => Vec::new(),
        },
        None => Vec::new(),
    };
    assert(rows_view(rows@) =~= rows_of(data@));
    let mut preamble = String::new();
    if offline {
        push_text(&mut preamble, offline_banner());
    }
    match data.get("commandTag") {
        Some(t) => match t.as_text() {
            Some(tag) => {
                push_text(&mut preamble, "<p class=\"tag\">command: ");
                push_text(&mut preamble, esc(tag.as_str()).as_str());
                push_text(&mut preamble, "</p>");
            },
            None => {},
        },
        None => {},
    }
    assert(preamble@ =~= query_preamble(data@, offline));
    if columns.len() == 0 && rows.len() == 0 {
        push_text(&mut preamble, "<p class=\"muted\">結果はありません(0行)。</p>");
        return Rendered { html: preamble, last_result: None, export_enabled: false };
    }
    render_table(columns, rows, preamble.as_str())
}

/// The labels and keys of the registry summary, in display order.
pub open spec fn summary_items() -> Seq<(Seq<char>, Seq<char>)> {
    seq![
        ("登録DB総数"@, "total"@),
        ("接続確認可能"@, "connectable"@),
        ("GA"@, "ga"@),
        ("Beta"@, "beta"@),
        ("PostgreSQL互換"@, "pgCompatible"@),
        ("計画中"@, "planned"@),
    ]
}

/// One statistic: the label and the integer under `key` (0 when absent or
/// not an integer).
pub open spec fn stat_html(data: JsonView, label: Seq<char>, key: Seq<char>) -> Seq<char> {
    let n: int = match int_field(data, key) {
        Some(v) => v as int,
        None => 0,
    };
    "<div class=\"stat\"><dt>"@ + escaped(label) + "</dt><dd>"@ + signed_decimal(n) + "</dd></div>"@
}

/// The statistics of the first `k` summary items.
pub open spec fn stats_html(data: JsonView, k: nat) -> Seq<char>
    decreases k,
{
    if k == 0 || k > summary_items().len() {
        Seq::empty()
    } else {
        stats_html(data, (k - 1) as nat) + stat_html(
            data,
            summary_items()[k - 1].0,
            summary_items()[k - 1].1,
        )
    }
}

/// The rendering of a `RegistrySummaryGql`: a list of the six counts; no kept
/// result and no export.
pub open spec fn summary_rendering(data: JsonView, offline: bool) -> RenderedView {
    RenderedView {
        html: (if offline {
            banner_text()
        } else {
            Seq::empty()
        }) + "<dl class=\"summary\">"@ + stats_html(data, 6) + "</dl>"@,
        last_result: None,
        export_enabled: false,
    }
}

fn push_stat(html: &mut String, data: &Json, label: &str, key: &str)
    ensures
        final(html)@ == old(html)@ + stat_html(data@, label@, key@),
{
    let n: i64 = match data.get(key) {
        Some(v) => match v.as_int() {
            Some(x) => x,
            None => 0,
        },
        None => 0,
    };
    push_text(html, "<div class=\"stat\"><dt>");
    push_text(html, esc(label).as_str());
    push_text(html, "</dt><dd>");
    push_signed_decimal(html, n);
    push_text(html, "</dd></div>");
}

/// Renders a `RegistrySummaryGql` as a list of counts.
pub fn render_registry_summary(data: &Json, offline: bool) -> (r: Rendered)
    ensures
        r@ == summary_rendering(data@, offline),
{
    let mut html = String::new();
    if offline {
        push_text(&mut html, offline_banner());
    }
    push_text(&mut html, "<dl class=\"summary\">");
    let ghost head = html@;
    let ghost items = summary_items();
    push_stat(&mut html, data, "登録DB総数", "total");
    assert(html@ =~= head + stats_html(data@, 1)) by {
        assert(items[0] == ("登録DB総数"@, "total"@));
        assert(stats_html(data@, 0) =~= Seq::<char>::empty());
    }
    push_stat(&mut html, data, "接続確認可能", "connectable");
    assert(html@ =~= head + stats_html(data@, 2)) by {
        assert(items[1] == ("接続確認可能"@, "connectable"@));
    }
    push_stat(&mut html, data, "GA", "ga");
    assert(html@ =~= head + stats_html(data@, 3)) by {
        assert(items[2] == ("GA"@, "ga"@));
    }
    push_stat(&mut html, data, "Beta", "beta");
    assert(html@ =~= head + stats_html(data@, 4)) by {
        assert(items[3] == ("Beta"@, "beta"@));
    }
    push_stat(&mut html, data, "PostgreSQL互換", "pgCompatible");
    assert(html@ =~= head + stats_html(data@, 5)) by {
        assert(items[4] == ("PostgreSQL互換"@, "pgCompatible"@));
    }
    push_stat(&mut html, data, "計画中", "planned");
    assert(html@ =~= head + stats_html(data@, 6)) by {
        assert(items[5] == ("計画中"@, "planned"@));
    }
    push_text(&mut html, "</dl>");
    Rendered { html, last_result: None, export_enabled: false }
}

/// The sample `QueryResultGql` shown when the server cannot be reached.
pub open spec fn sample_query(sql: Seq<char>) -> JsonView {
    JsonView::Object(
        seq![
            (
                "columns"@,
                JsonView::Array(
                    seq![
                        JsonView::Str("id"@),
                        JsonView::Str("short_id"@),
                        JsonView::Str("message"@),
                    ],
                ),
            ),
            (
                "rows"@,
                JsonView::Array(
                    seq![
                        JsonView::Array(
                            seq![
                                JsonView::Str("1"@),
                                JsonView::Str("a1b2c3d"@),
                                JsonView::Str("sample row for: "@ + sql),
                            ],
                        ),
                        JsonView::Array(
                            seq![
                                JsonView::Str("2"@),
                                JsonView::Str("e4f5a6b"@),
                                JsonView::Str("aruaru-server is not reachable from this build"@),
                            ],
                        ),
                    ],
                ),
            ),
            ("commandTag"@, JsonView::Null),
        ],
    )
}

fn three_strings(a: Json, b: Json, c: Json) -> (r: Json)
    ensures
        r@ == JsonView::Array(seq![a@, b@, c@]),
{
    let mut v: Vec<Json> = Vec::new();
    v.push(a);
    v.push(b);
    v.push(c);
    let r = Json::Array(v);
    assert(r@->Array_0 =~= seq![a@, b@, c@]);
    r
}

/// The sample result for `sql`, built as a value.
pub fn sample_query_json(sql: &str) -> (r: Json)
    ensures
        r@ == sample_query(sql@),
{
    let columns = three_strings(text_value("id"), text_value("short_id"), text_value("message"));
    let mut message = owned("sample row for: ");
    push_text(&mut message, sql);
    let row1 = three_strings(text_value("1"), text_value("a1b2c3d"), Json::Str(message));
    let row2 = three_strings(
        text_value("2"),
        text_value("e4f5a6b"),
        text_value("aruaru-server is not reachable from this build"),
    );
    let mut rows_v: Vec<Json> = Vec::new();
    rows_v.push(row1);
    rows_v.push(row2);
    let rows = Json::Array(rows_v);
    assert(rows@->Array_0 =~= sample_query(sql@)->Object_0[1].1->Array_0);
    let ghost cv = columns@;
    let ghost rv = rows@;
    let mut members: Vec<(String, Json)> = Vec::new();
    members.push((owned("columns"), columns));
    members.push((owned("rows"), rows));
    members.push((owned("commandTag"), Json::Null));
    let r = Json::Object(members);
    proof {
        let a = r@->Object_0;
        let b = sample_query(sql@)->Object_0;
        assert(a[0] == (members@[0].0@, json_view(members@[0].1)));
        assert(a[0] == b[0]);
        assert(a[1] == (members@[1].0@, json_view(members@[1].1)));
        assert(a[1].1 == rv);
        assert(a[1] == b[1]);
        assert(a[2] == (members@[2].0@, json_view(members@[2].1)));
        assert(a[2] == b[2]);
        assert(a =~= b);
    }
    r
}

/// Renders the offline sample result for `sql`, marked as offline.
pub fn render_query_result_offline_sample(sql: &str) -> (r: Rendered)
    ensures
        r@ == query_rendering(sample_query(sql@), true),
{
    let sample = sample_query_json(sql);
    render_query_result(&sample, true)
}

/// The sample `RegistrySummaryGql` shown when the server cannot be reached.
pub open spec fn sample_summary() -> JsonView {
    JsonView::Object(
        seq![
            ("total"@, JsonView::Number(Some(159))),
            ("connectable"@, JsonView::Number(Some(42))),
            ("ga"@, JsonView::Number(Some(12))),
            ("beta"@, JsonView::Number(Some(9))),
            ("pgCompatible"@, JsonView::Number(Some(21))),
            ("planned"@, JsonView::Number(Some(96))),
        ],
    )
}

/// The sample registry summary, built as a value.
pub fn sample_summary_json() -> (r: Json)
    ensures
        r@ == sample_summary(),
{
    let mut members: Vec<(String, Json)> = Vec::new();
    members.push((owned("total"), Json::Number(Some(159))));
    members.push((owned("connectable"), Json::Number(Some(42))));
    members.push((owned("ga"), Json::Number(Some(12))));
    members.push((owned("beta"), Json::Number(Some(9))));
    members.push((owned("pgCompatible"), Json::Number(Some(21))));
    members.push((owned("planned"), Json::Number(Some(96))));
    let r = Json::Object(members);
    proof {
        let a = r@->Object_0;
        let b = sample_summary()->Object_0;
        assert forall|k: int| 0 <= k < 6 implies a[k] == b[k] by {
            assert(a[k] == (members@[k].0@, json_view(members@[k].1)));
        }
        assert(a =~= b);
    }
    r
}

/// Renders the offline sample registry summary, marked as offline.
pub fn render_registry_summary_offline_sample() -> (r: Rendered)
    ensures
        r@ == summary_rendering(sample_summary(), true),
{
    let sample = sample_summary_json();
    render_registry_summary(&sample, true)
}

/// The rows read from a reply are one per array item of `rows`, in order and
/// with repeats; other items are skipped; each row is the item's cells.
pub proof fn lemma_rows_in_order(items: Seq<JsonView>)
    ensures
        rows_in(items) == items.filter(|x: JsonView| x is Array).map_values(
            |x: JsonView| cells_in(x->Array_0),
        ),
        (forall|k: int| 0 <= k < items.len() ==> #[trigger] items[k] is Array) ==> {
            &&& rows_in(items).len() == items.len()
            &&& forall|k: int| 0 <= k < items.len() ==> #[trigger] rows_in(items)[k] == cells_in(
                items[k]->Array_0,
            )
        },
    decreases items.len(),
{
    let pred = |x: JsonView| x is Array;
    let g = |x: JsonView| cells_in(x->Array_0);
    if items.len() == 0 {
        reveal(Seq::filter);
        assert(items.filter(pred).map_values(g) =~= Seq::<Seq<Seq<char>>>::empty());
    } else {
        let p = items.drop_last();
        lemma_rows_in_order(p);
        assert(p.push(items.last()) =~= items);
        p.lemma_filter_push(items.last(), pred);
        if pred(items.last()) {
            assert(p.filter(pred).push(items.last()).map_values(g) =~= p.filter(pred).map_values(
                g,
            ).push(g(items.last())));
        }
        if forall|k: int| 0 <= k < items.len() ==> #[trigger] items[k] is Array {
            assert forall|k: int| 0 <= k < p.len() implies #[trigger] p[k] is Array by {
                assert(p[k] == items[k]);
            }
            assert(items.last() is Array) by {
                assert(items[items.len() - 1] == items.last());
            }
            assert forall|k: int| 0 <= k < items.len() implies #[trigger] rows_in(items)[k] == cells_in(
                items[k]->Array_0,
            ) by {
                if k < p.len() {
                    assert(rows_in(items)[k] == rows_in(p)[k]);
                    assert(items[k] == p[k]);
                }
            }
        }
    }
}

/// The column names read from a reply are the strings of `columns`, in order
/// and with repeats; other items are skipped.
pub proof fn lemma_strings_in_order(items: Seq<JsonView>)
    ensures
        strings_in(items) == items.filter(|x: JsonView| x is Str).map_values(|x: JsonView| x->Str_0),
    decreases items.len(),
{
    let pred = |x: JsonView| x is Str;
    let g = |x: JsonView| x->Str_0;
    if items.len() == 0 {
        reveal(Seq::filter);
        assert(items.filter(pred).map_values(g) =~= Seq::<Seq<char>>::empty());
    } else {
        let p = items.drop_last();
        lemma_strings_in_order(p);
        assert(p.push(items.last()) =~= items);
        p.lemma_filter_push(items.last(), pred);
        if pred(items.last()) {
            assert(p.filter(pred).push(items.last()).map_values(g) =~= p.filter(pred).map_values(
                g,
            ).push(g(items.last())));
        }
    }
}

proof fn lemma_csv_lines_in_order(rows: Seq<Seq<Seq<char>>>, k: nat)
    requires
        k <= rows.len(),
    ensures
        csv_lines(rows, k) == Seq::new(k, |i: int| csv_line(rows[i]) + seq!['\n']).flatten(),
    decreases k,
{
    let f = |i: int| csv_line(rows[i]) + seq!['\n'];
    if k == 0 {
        lemma_concat_none(f);
    } else {
        lemma_csv_lines_in_order(rows, (k - 1) as nat);
        lemma_concat_step((k - 1) as nat, f);
        assert(csv_lines(rows, k) =~= csv_lines(rows, (k - 1) as nat) + f(k - 1));
    }
}

/// The CSV export is the header line, then one line per kept row in order
/// (repeated rows included), each line followed by a line break.
pub proof fn lemma_csv_text_lines(q: QueryResultView)
    ensures
        csv_text(q) == csv_line(q.columns) + seq!['\n'] + Seq::new(
            q.rows.len(),
            |i: int| csv_line(q.rows[i]) + seq!['\n'],
        ).flatten(),
{
    lemma_csv_lines_in_order(q.rows, q.rows.len());
}

proof fn lemma_wrap_each_in_order(items: Seq<Seq<char>>, open: Seq<char>, close: Seq<char>, k: nat)
    requires
        k <= items.len(),
    ensures
        wrap_each(items, open, close, k) == Seq::new(k, |i: int| open + escaped(items[i]) + close).flatten(),
    decreases k,
{
    let f = |i: int| open + escaped(items[i]) + close;
    if k == 0 {
        lemma_concat_none(f);
    } else {
        lemma_wrap_each_in_order(items, open, close, (k - 1) as nat);
        lemma_concat_step((k - 1) as nat, f);
        assert(wrap_each(items, open, close, k) =~= wrap_each(items, open, close, (k - 1) as nat) + f(k - 1));
    }
}

proof fn lemma_body_rows_in_order(rows: Seq<Seq<Seq<char>>>, k: nat)
    requires
        k <= rows.len(),
    ensures
        body_rows(rows, k) == Seq::new(
            k,
            |i: int| "<tr>"@ + Seq::new(rows[i].len(), |j: int| "<td>"@ + escaped(rows[i][j]) + "</td>"@).flatten() + "</tr>"@,
        ).flatten(),
    decreases k,
{
    let f = |i: int| "<tr>"@ + Seq::new(rows[i].len(), |j: int| "<td>"@ + escaped(rows[i][j]) + "</td>"@).flatten() + "</tr>"@;
    if k == 0 {
        lemma_concat_none(f);
    } else {
        lemma_body_rows_in_order(rows, (k - 1) as nat);
        lemma_wrap_each_in_order(rows[k - 1], "<td>"@, "</td>"@, rows[k - 1].len());
        assert(Seq::new(rows[k - 1].len(), |j: int| "<td>"@ + escaped(rows[k - 1][j]) + "</td>"@) =~= Seq::new(
            rows[k - 1].len(),
            |j: int| "<td>"@ + escaped(rows[k - 1][j]) + "</td>"@,
        ));
        lemma_concat_step((k - 1) as nat, f);
        assert(body_rows(rows, k) =~= body_rows(rows, (k - 1) as nat) + f(k - 1));
    }
}

/// The table shows the headers in order, one `<th>` cell each, and the rows in
/// order (repeats included), one `<tr>` each with its cells in order.
pub proof fn lemma_table_in_order(headers: Seq<Seq<char>>, rows: Seq<Seq<Seq<char>>>)
    ensures
        wrap_each(headers, "<th>"@, "</th>"@, headers.len()) == Seq::new(
            headers.len(),
            |i: int| "<th>"@ + escaped(headers[i]) + "</th>"@,
        ).flatten(),
        body_rows(rows, rows.len()) == Seq::new(
            rows.len(),
            |i: int| "<tr>"@ + Seq::new(rows[i].len(), |j: int| "<td>"@ + escaped(rows[i][j]) + "</td>"@).flatten() + "</tr>"@,
        ).flatten(),
{
    lemma_wrap_each_in_order(headers, "<th>"@, "</th>"@, headers.len());
    lemma_body_rows_in_order(rows, rows.len());
}

/// A CSV field's quotes are doubled one character at a time, in order: each
/// `"` is written twice and every other character once.
pub proof fn lemma_doubled_quotes_per_char(f: Seq<char>)
    ensures
        doubled_quotes(f) == Seq::new(
            f.len(),
            |i: int|
                if f[i] == '"' {
                    seq!['"', '"']
                } else {
                    seq![f[i]]
                },
        ).flatten(),
    decreases f.len(),
{
    let g = |i: int|
        if f[i] == '"' {
            seq!['"', '"']
        } else {
            seq![f[i]]
        };
    if f.len() == 0 {
        lemma_concat_none(g);
    } else {
        let p = f.drop_last();
        lemma_doubled_quotes_per_char(p);
        lemma_concat_step((f.len() - 1) as nat, g);
        assert(Seq::new((f.len() - 1) as nat, g) =~= Seq::new(
            p.len(),
            |i: int|
                if p[i] == '"' {
                    seq!['"', '"']
                } else {
                    seq![p[i]]
                },
        ));
    }
}

} // verus!
