//! The SQL history: the ten most recent statements, newest first, each once,
//! stored as a JSON array of strings.

use vstd::prelude::*;
use crate::text::{trim, trim_spec, push_text, owned, texts, lemma_concat_step, lemma_concat_none};
use crate::dom::{esc, escaped};

verus! {

/// How many statements the history keeps.
pub const MAX_ENTRIES: usize = 10;

/// `h` without the entries equal to `t`, in order.
pub open spec fn without_text(h: Seq<Seq<char>>, t: Seq<char>) -> Seq<Seq<char>>
    decreases h.len(),
{
    if h.len() == 0 {
        Seq::empty()
    } else if h.last() == t {
        without_text(h.drop_last(), t)
    } else {
        without_text(h.drop_last(), t).push(h.last())
    }
}

/// The first `MAX_ENTRIES` entries of `h`.
pub open spec fn capped(h: Seq<Seq<char>>) -> Seq<Seq<char>> {
    if h.len() > MAX_ENTRIES {
        h.take(MAX_ENTRIES as int)
    } else {
        h
    }
}

/// The history after running `sql`: nothing changes (`None`) when the trimmed
/// statement is empty or already the newest entry; otherwise it becomes the
/// newest entry, its older copies leave, and only the newest ten stay.
pub open spec fn pushed(h: Seq<Seq<char>>, sql: Seq<char>) -> Option<Seq<Seq<char>>> {
    let t = trim_spec(sql);
    if t.len() == 0 {
        None
    } else if h.len() > 0 && h[0] == t {
        None
    } else {
        Some(capped(seq![t] + without_text(h, t)))
    }
}

/// Adds the statement `sql` to `history`; `None` when the history stays as it is.
pub fn push(history: &Vec<String>, sql: &str) -> (r: Option<Vec<String>>)
    ensures
        match r {
            Some(v) => pushed(texts(history@), sql@) == Some(texts(v@)),
            None => pushed(texts(history@), sql@) is None,
        },
{
    let ghost h = texts(history@);
    let t = trim(sql);
    if t.as_str().unicode_len() == 0 {
        return None;
    }
    if history.len() > 0 && history[0] == t {
        return None;
    }
    let mut out: Vec<String> = Vec::new();
    out.push(t.clone());
    let mut i: usize = 0;
    while i < history.len()
        invariant
            i <= history@.len(),
            h == texts(history@),
            t@ == trim_spec(sql@),
            texts(out@) == seq![t@] + without_text(h.take(i as int), t@),
        decreases history@.len() - i,
    {
        proof {
            assert(h.take(i + 1).drop_last() =~= h.take(i as int));
            assert(h.take(i + 1).last() == h[i as int]);
        }
        let ghost before = out@;
        if history[i] != t {
            out.push(history[i].clone());
            assert(texts(out@) =~= texts(before).push(h[i as int]));
        }
        i = i + 1;
    }
    proof {
        assert(h.take(history@.len() as int) =~= h);
    }
    let ghost full = out@;
    out.truncate(MAX_ENTRIES);
    proof {
        if full.len() > MAX_ENTRIES {
            assert(texts(out@) =~= texts(full).take(MAX_ENTRIES as int));
        }
    }
    Some(out)
}

/// The list of strings that a stored text parses to, when it is a JSON array
/// of strings.
pub uninterp spec fn parsed_history(raw: Seq<char>) -> Option<Seq<Seq<char>>>;

/// The JSON text written for a list of strings.
pub uninterp spec fn history_json(h: Seq<Seq<char>>) -> Seq<char>;

/// Parses a stored history text.
/// Trusted: `serde_json::from_str::<Vec<String>>`, whose result depends on
/// the text alone (named `parsed_history`).
#[verifier::external_body]
pub fn parse_history(raw: &str) -> (r: Option<Vec<String>>)
    ensures
        match r {
            Some(v) => parsed_history(raw@) == Some(texts(v@)),
            None => parsed_history(raw@) is None,
        },
{
    serde_json::from_str::<Vec<String>>(raw).ok()
}

/// The text to store for a history.
/// Trusted: `serde_json::to_string` of a list of strings, whose text depends
/// on the strings alone (named `history_json`); parsing that text back as a
/// list of strings gives the same strings. `None` when serialisation fails;
/// nothing more is said of that case.
#[verifier::external_body]
pub fn history_text(history: &Vec<String>) -> (r: Option<String>)
    ensures
        match r {
            Some(t) => t@ == history_json(texts(history@)) && parsed_history(t@) == Some(
                texts(history@),
            ),
            None => true,
        },
{
    serde_json::to_string(history).ok()
}

/// The history given what storage held: the stored list when there is a text
/// that parses as a list of strings, otherwise the empty history.
pub open spec fn loaded_history(stored: Option<Seq<char>>) -> Seq<Seq<char>> {
    match stored {
        Some(raw) => match parsed_history(raw) {
            Some(h) => h,
            None => Seq::empty(),
        },
        None => Seq::empty(),
    }
}

/// The history given what storage held (`None` when nothing is stored).
pub fn load_history(stored: &Option<String>) -> (r: Vec<String>)
    ensures
        texts(r@) == loaded_history(crate::profiles::opt_view(*stored)),
{
    match stored {
        Some(raw) => match parse_history(raw.as_str()) {
            Some(h) => h,
            None => {
                let r: Vec<String> = Vec::new();
                assert(texts(r@) =~= Seq::<Seq<char>>::empty());
                r
            },
        },
        None => {
            let r: Vec<String> = Vec::new();
            assert(texts(r@) =~= Seq::<Seq<char>>::empty());
            r
        },
    }
}

/// A history written with the text of `history_text` is read back unchanged.
pub proof fn lemma_stored_history_loads_back(h: Seq<Seq<char>>, t: Seq<char>)
    requires
        t == history_json(h),
        parsed_history(t) == Some(h),
    ensures
        loaded_history(Some(t)) == h,
{
}

/// The markup of one history entry.
pub open spec fn entry_html(sql: Seq<char>) -> Seq<char> {
    "<li><button class=\"history-item\" type=\"button\" title=\""@ + escaped(sql) + "\">"@
        + escaped(sql) + "</button></li>"@
}

/// The markup of the first `k` entries.
pub open spec fn entries_html(h: Seq<Seq<char>>, k: nat) -> Seq<char>
    decreases k,
{
    if k == 0 || k > h.len() {
        Seq::empty()
    } else {
        entries_html(h, (k - 1) as nat) + entry_html(h[k - 1])
    }
}

/// The markup of the history list, or a hint when it is empty.
pub open spec fn history_html(h: Seq<Seq<char>>) -> Seq<char> {
    if h.len() == 0 {
        "<p class=\"muted\">履歴はまだありません。</p>"@
    } else {
        "<ul class=\"history-list\">"@ + entries_html(h, h.len()) + "</ul>"@
    }
}

/// The markup of the history list.
pub fn render(history: &Vec<String>) -> (r: String)
    ensures
        r@ == history_html(texts(history@)),
{
    let ghost h = texts(history@);
    if history.len() == 0 {
        return owned("<p class=\"muted\">履歴はまだありません。</p>");
    }
    let mut html = owned("<ul class=\"history-list\">");
    let mut i: usize = 0;
    while i < history.len()
        invariant
            i <= history@.len(),
            h == texts(history@),
            html@ == "<ul class=\"history-list\">"@ + entries_html(h, i as nat),
        decreases history@.len() - i,
    {
        let e = esc(history[i].as_str());
        push_text(&mut html, "<li><button class=\"history-item\" type=\"button\" title=\"");
        push_text(&mut html, e.as_str());
        push_text(&mut html, "\">");
        push_text(&mut html, e.as_str());
        push_text(&mut html, "</button></li>");
        proof {
            assert(html@ =~= "<ul class=\"history-list\">"@ + entries_html(h, (i + 1) as nat));
        }
        i = i + 1;
    }
    push_text(&mut html, "</ul>");
    html
}

proof fn lemma_without_text(h: Seq<Seq<char>>, t: Seq<char>)
    ensures
        forall|i: int| 0 <= i < without_text(h, t).len() ==> #[trigger] without_text(h, t)[i] != t,
        forall|i: int|
            0 <= i < without_text(h, t).len() ==> h.contains(#[trigger] without_text(h, t)[i]),
        without_text(h, t).len() <= h.len(),
    decreases h.len(),
{
    if h.len() > 0 {
        let p = h.drop_last();
        lemma_without_text(p, t);
        let w = without_text(h, t);
        assert forall|i: int| 0 <= i < w.len() implies h.contains(#[trigger] w[i]) by {
            if i < without_text(p, t).len() {
                assert(w[i] == without_text(p, t)[i]);
                let j = choose|j: int| 0 <= j < p.len() && p[j] == w[i];
                assert(h[j] == w[i]);
            } else {
                assert(w[i] == h.last());
                assert(h[h.len() - 1] == w[i]);
            }
        }
    }
}

proof fn lemma_without_text_distinct(h: Seq<Seq<char>>, t: Seq<char>)
    requires
        h.no_duplicates(),
    ensures
        without_text(h, t).no_duplicates(),
    decreases h.len(),
{
    if h.len() > 0 {
        let p = h.drop_last();
        assert(p.no_duplicates());
        lemma_without_text_distinct(p, t);
        lemma_without_text(p, t);
        let w = without_text(h, t);
        if h.last() != t {
            assert(!p.contains(h.last())) by {
                if p.contains(h.last()) {
                    let j = choose|j: int| 0 <= j < p.len() && p[j] == h.last();
                    assert(h[j] == h[h.len() - 1]);
                }
            }
            assert forall|i: int, j: int| 0 <= i < w.len() && 0 <= j < w.len() && i != j implies w[i]
                != w[j] by {
                let q = without_text(p, t);
                if i < q.len() && j < q.len() {
                    assert(w[i] == q[i] && w[j] == q[j]);
                } else if i < q.len() {
                    assert(w[i] == q[i] && w[j] == h.last());
                    assert(p.contains(q[i]));
                } else {
                    assert(w[j] == q[j] && w[i] == h.last());
                    assert(p.contains(q[j]));
                }
            }
        }
    }
}

/// After a push the history holds at most ten entries, the pushed statement
/// (trimmed) comes first and occurs nowhere else.
pub proof fn lemma_push_shape(h: Seq<Seq<char>>, sql: Seq<char>)
    ensures
        match pushed(h, sql) {
            Some(r) => {
                &&& r.len() <= MAX_ENTRIES
                &&& r.len() >= 1
                &&& r[0] == trim_spec(sql)
                &&& forall|i: int| 1 <= i < r.len() ==> #[trigger] r[i] != trim_spec(sql)
            },
            None => true,
        },
{
    let t = trim_spec(sql);
    if let Some(r) = pushed(h, sql) {
        lemma_without_text(h, t);
        let full = seq![t] + without_text(h, t);
        assert forall|i: int| 1 <= i < r.len() implies #[trigger] r[i] != t by {
            assert(r[i] == full[i]);
            assert(full[i] == without_text(h, t)[i - 1]);
        }
    }
}

/// Running the same statement twice in a row records it once: the second
/// push leaves the history unchanged.
pub proof fn lemma_push_idempotent(h: Seq<Seq<char>>, sql: Seq<char>)
    ensures
        match pushed(h, sql) {
            Some(r) => pushed(r, sql) is None,
            None => true,
        },
{
    lemma_push_shape(h, sql);
}

/// A history without repeated entries stays so after a push.
pub proof fn lemma_push_keeps_distinct(h: Seq<Seq<char>>, sql: Seq<char>)
    requires
        h.no_duplicates(),
    ensures
        match pushed(h, sql) {
            Some(r) => r.no_duplicates(),
            None => true,
        },
{
    let t = trim_spec(sql);
    if let Some(r) = pushed(h, sql) {
        lemma_without_text(h, t);
        lemma_without_text_distinct(h, t);
        let w = without_text(h, t);
        let full = seq![t] + w;
        assert(full.no_duplicates()) by {
            assert forall|i: int, j: int| 0 <= i < full.len() && 0 <= j < full.len() && i != j implies full[i]
                != full[j] by {
                if i > 0 && j > 0 {
                    assert(full[i] == w[i - 1] && full[j] == w[j - 1]);
                } else if i == 0 {
                    assert(full[j] == w[j - 1]);
                } else {
                    assert(full[i] == w[i - 1]);
                }
            }
        }
        assert forall|i: int, j: int| 0 <= i < r.len() && 0 <= j < r.len() && i != j implies r[i]
            != r[j] by {
            assert(r[i] == full[i] && r[j] == full[j]);
        }
    }
}

/// Removing the copies of `t` keeps every other entry, in order, duplicates
/// included: it is `h` filtered by `e != t`.
pub proof fn lemma_without_text_is_filter(h: Seq<Seq<char>>, t: Seq<char>)
    ensures
        without_text(h, t) == h.filter(|e: Seq<char>| e != t),
    decreases h.len(),
{
    if h.len() == 0 {
        reveal(Seq::filter);
    } else {
        lemma_without_text_is_filter(h.drop_last(), t);
        assert(h.drop_last().push(h.last()) =~= h);
        h.drop_last().lemma_filter_push(h.last(), |e: Seq<char>| e != t);
    }
}

proof fn lemma_without_text_keeps(h: Seq<Seq<char>>, t: Seq<char>, j: int)
    requires
        0 <= j < h.len(),
        h[j] != t,
    ensures
        exists|k: int| 0 <= k <= j && k < without_text(h, t).len() && without_text(h, t)[k] == h[j],
    decreases h.len(),
{
    let p = h.drop_last();
    lemma_without_text(p, t);
    if j < h.len() - 1 {
        lemma_without_text_keeps(p, t, j);
        let k = choose|k: int| 0 <= k <= j && k < without_text(p, t).len() && without_text(p, t)[k] == p[j];
        assert(without_text(h, t)[k] == without_text(p, t)[k]);
    } else {
        let k = without_text(p, t).len() as int;
        assert(without_text(h, t)[k] == h[j]);
    }
}

/// A push keeps the entries that differ from the pushed statement, in order
/// and with repeats, up to the cap of ten: the result is the trimmed statement
/// followed by those entries, cut to ten. In particular an entry among the
/// first nine that differs from the statement is still there, and a history
/// of fewer than ten entries without the statement just gains it in front.
pub proof fn lemma_push_keeps_others(h: Seq<Seq<char>>, sql: Seq<char>)
    ensures
        ({
            let t = trim_spec(sql);
            match pushed(h, sql) {
                Some(r) => {
                    let full = seq![t] + h.filter(|e: Seq<char>| e != t);
                    &&& r == if full.len() > MAX_ENTRIES {
                        full.take(MAX_ENTRIES as int)
                    } else {
                        full
                    }
                    &&& forall|j: int|
                        0 <= j < h.len() && j < MAX_ENTRIES - 1 && #[trigger] h[j] != t ==> r.contains(
                            h[j],
                        )
                    &&& (h.len() < MAX_ENTRIES && !h.contains(t)) ==> r == seq![t] + h
                },
                None => t.len() == 0 || (h.len() > 0 && h[0] == t),
            }
        }),
{
    let t = trim_spec(sql);
    lemma_without_text_is_filter(h, t);
    if let Some(r) = pushed(h, sql) {
        let w = without_text(h, t);
        let full = seq![t] + w;
        assert forall|j: int|
            0 <= j < h.len() && j < MAX_ENTRIES - 1 && #[trigger] h[j] != t implies r.contains(h[j]) by {
            lemma_without_text_keeps(h, t, j);
            let k = choose|k: int| 0 <= k <= j && k < w.len() && w[k] == h[j];
            assert(full[k + 1] == h[j]);
            assert(r[k + 1] == h[j]);
        }
        if h.len() < MAX_ENTRIES && !h.contains(t) {
            assert(h.filter(|e: Seq<char>| e != t) =~= h) by {
                lemma_filter_all(h, t);
            }
        }
    }
}

proof fn lemma_filter_all(h: Seq<Seq<char>>, t: Seq<char>)
    requires
        !h.contains(t),
    ensures
        h.filter(|e: Seq<char>| e != t) == h,
    decreases h.len(),
{
    reveal(Seq::filter);
    if h.len() > 0 {
        assert(!h.drop_last().contains(t)) by {
            if h.drop_last().contains(t) {
                let k = choose|k: int| 0 <= k < h.drop_last().len() && h.drop_last()[k] == t;
                assert(h[k] == t);
            }
        }
        lemma_filter_all(h.drop_last(), t);
        assert(h.last() != t) by {
            assert(h[h.len() - 1] == h.last());
        }
        assert(h.drop_last().push(h.last()) =~= h);
    }
}

/// The history list shows the entries in stored order (newest first): its
/// markup is the list tag, the entries' markup one after the other from the
/// first entry to the last, and the closing tag.
pub proof fn lemma_history_html_order(h: Seq<Seq<char>>)
    ensures
        h.len() > 0 ==> history_html(h) == "<ul class=\"history-list\">"@ + Seq::new(
            h.len(),
            |i: int| entry_html(h[i]),
        ).flatten() + "</ul>"@,
{
    lemma_entries_in_order(h, h.len());
}

proof fn lemma_entries_in_order(h: Seq<Seq<char>>, k: nat)
    requires
        k <= h.len(),
    ensures
        entries_html(h, k) == Seq::new(k, |i: int| entry_html(h[i])).flatten(),
    decreases k,
{
    let f = |i: int| entry_html(h[i]);
    if k == 0 {
        lemma_concat_none(f);
    } else {
        lemma_entries_in_order(h, (k - 1) as nat);
        lemma_concat_step((k - 1) as nat, f);
        assert(Seq::new(k, f) == Seq::new(k, |i: int| entry_html(h[i])));
    }
}

} // verus!
