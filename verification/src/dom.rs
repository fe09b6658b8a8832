//! HTML escaping of text that is written into markup.

use vstd::prelude::*;
use crate::text::push_text;
use crate::text::push_char;

verus! {

/// What `esc` writes for one character.
pub open spec fn esc_char(c: char) -> Seq<char> {
    if c == '&' {
        "&amp;"@
    } else if c == '<' {
        "&lt;"@
    } else if c == '>' {
        "&gt;"@
    } else if c == '"' {
        "&quot;"@
    } else {
        seq![c]
    }
}

/// `s` with `&`, `<`, `>` and `"` replaced by their HTML entities.
pub open spec fn escaped(s: Seq<char>) -> Seq<char>
    decreases s.len(),
{
    if s.len() == 0 {
        Seq::empty()
    } else {
        escaped(s.drop_last()) + esc_char(s.last())
    }
}

/// Minimal HTML escaping, for user input and server replies placed in markup.
pub fn esc(s: &str) -> (r: String)
    ensures
        r@ == escaped(s@),
{
    let mut out = String::new();
    for c in it: s.chars()
        invariant
            it.seq() == s@,
            out@ == escaped(s@.take(it.index() as int)),
    {
        let ghost before = s@.take(it.index() as int);
        if c == '&' {
            push_text(&mut out, "&amp;");
        } else if c == '<' {
            push_text(&mut out, "&lt;");
        } else if c == '>' {
            push_text(&mut out, "&gt;");
        } else if c == '"' {
            push_text(&mut out, "&quot;");
        } else {
            push_char(&mut out, c);
        }
        proof {
            let after = s@.take(it.index() + 1);
            assert(after.drop_last() =~= before);
            assert(after.last() == c);
        }
    }
    proof {
        assert(s@.take(s@.len() as int) =~= s@);
    }
    out
}

/// Escaped text holds no `<`, `>` or `"`: it cannot open or close a tag or
/// end an attribute value.
pub proof fn lemma_escaped_is_inert(s: Seq<char>)
    ensures
        forall|i: int|
            0 <= i < escaped(s).len() ==> {
                let c = #[trigger] escaped(s)[i];
                c != '<' && c != '>' && c != '"'
            },
    decreases s.len(),
{
    reveal_strlit("&amp;");
    reveal_strlit("&lt;");
    reveal_strlit("&gt;");
    reveal_strlit("&quot;");
    if s.len() > 0 {
        lemma_escaped_is_inert(s.drop_last());
        let a = escaped(s.drop_last());
        let b = esc_char(s.last());
        assert forall|i: int| 0 <= i < escaped(s).len() implies {
            let c = #[trigger] escaped(s)[i];
            c != '<' && c != '>' && c != '"'
        } by {
            if i >= a.len() {
                assert(escaped(s)[i] == b[i - a.len()]);
            } else {
                assert(escaped(s)[i] == a[i]);
            }
        }
    }
}

/// Escaping replaces each character on its own, in order: the escaped text
/// is the concatenation of what each character is written as.
pub proof fn lemma_escaped_per_char(s: Seq<char>)
    ensures
        escaped(s) == Seq::new(s.len(), |i: int| esc_char(s[i])).flatten(),
    decreases s.len(),
{
    let f = |i: int| esc_char(s[i]);
    if s.len() == 0 {
        crate::text::lemma_concat_none(f);
    } else {
        let p = s.drop_last();
        lemma_escaped_per_char(p);
        crate::text::lemma_concat_step((s.len() - 1) as nat, f);
        assert(Seq::new((s.len() - 1) as nat, f) =~= Seq::new(p.len(), |i: int| esc_char(p[i])));
    }
}

} // verus!
