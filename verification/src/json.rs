//! A JSON document as the library reads it: server responses and the
//! offline samples are values of [`Json`].

use vstd::prelude::*;

verus! {

/// A JSON value. A number keeps what the logic reads of it: its value when it
/// is an integer that fits in `i64`, `None` otherwise. An object keeps its
/// members in order; a key is looked up at its first occurrence.
pub enum Json {
    Null,
    Bool(bool),
    Number(Option<i64>),
    Str(String),
    Array(Vec<Json>),
    Object(Vec<(String, Json)>),
}

/// The mathematical value of a [`Json`].
pub enum JsonView {
    Null,
    Bool(bool),
    Number(Option<i64>),
    Str(Seq<char>),
    Array(Seq<JsonView>),
    Object(Seq<(Seq<char>, JsonView)>),
}

/// The value of a [`Json`], member by member.
pub open spec fn json_view(j: Json) -> JsonView
    decreases j,
{
    match j {
        Json::Null => JsonView::Null,
        Json::Bool(b) => JsonView::Bool(b),
        Json::Number(n) => JsonView::Number(n),
        Json::Str(s) => JsonView::Str(s@),
        Json::Array(v) => JsonView::Array(
            Seq::new(
                v@.len(),
                |i: int|
                    {
                        if 0 <= i < v@.len() {
                            proof {
                                assert(decreases_to!(v => v@));
                            }
                            json_view(v@[i])
                        } else {
                            JsonView::Null
                        }
                    },
            ),
        ),
        Json::Object(v) => JsonView::Object(
            Seq::new(
                v@.len(),
                |i: int|
                    {
                        if 0 <= i < v@.len() {
                            (v@[i].0@, json_view(v@[i].1))
                        } else {
                            (Seq::empty(), JsonView::Null)
                        }
                    },
            ),
        ),
    }
}

impl View for Json {
    type V = JsonView;

    open spec fn view(&self) -> JsonView {
        json_view(*self)
    }
}

/// The values of a sequence of [`Json`].
pub open spec fn json_views(v: Seq<Json>) -> Seq<JsonView> {
    Seq::new(v.len(), |i: int| json_view(v[i]))
}

/// The value of the first member named `key` among `members`.
pub open spec fn lookup(members: Seq<(Seq<char>, JsonView)>, key: Seq<char>) -> Option<JsonView>
    decreases members.len(),
{
    if members.len() == 0 {
        None
    } else if members[0].0 == key {
        Some(members[0].1)
    } else {
        lookup(members.drop_first(), key)
    }
}

/// The member `key` of an object; nothing for other values.
pub open spec fn field(v: JsonView, key: Seq<char>) -> Option<JsonView> {
    match v {
        JsonView::Object(members) => lookup(members, key),
        _ => None,
    }
}

/// The text of a string value.
pub open spec fn text_of(v: JsonView) -> Option<Seq<char>> {
    match v {
        JsonView::Str(s) => Some(s),
        _ => None,
    }
}

/// The items of an array value.
pub open spec fn items_of(v: JsonView) -> Option<Seq<JsonView>> {
    match v {
        JsonView::Array(items) => Some(items),
        _ => None,
    }
}

/// The integer of a number value that fits in `i64`.
pub open spec fn int_of(v: JsonView) -> Option<i64> {
    match v {
        JsonView::Number(n) => n,
        _ => None,
    }
}

/// `field` followed by `text_of`.
pub open spec fn text_field(v: JsonView, key: Seq<char>) -> Option<Seq<char>> {
    match field(v, key) {
        Some(x) => text_of(x),
        None => None,
    }
}

/// `field` followed by `items_of`.
pub open spec fn items_field(v: JsonView, key: Seq<char>) -> Option<Seq<JsonView>> {
    match field(v, key) {
        Some(x) => items_of(x),
        None => None,
    }
}

/// `field` followed by `int_of`.
pub open spec fn int_field(v: JsonView, key: Seq<char>) -> Option<i64> {
    match field(v, key) {
        Some(x) => int_of(x),
        None => None,
    }
}

proof fn lemma_lookup_at(members: Seq<(Seq<char>, JsonView)>, key: Seq<char>, i: int)
    requires
        0 <= i < members.len(),
        members[i].0 == key,
        forall|k: int| 0 <= k < i ==> (#[trigger] members[k]).0 != key,
    ensures
        lookup(members, key) == Some(members[i].1),
    decreases i,
{
    if i > 0 {
        let t = members.drop_first();
        assert forall|k: int| 0 <= k < i - 1 implies (#[trigger] t[k]).0 != key by {
            assert(t[k] == members[k + 1]);
        }
        lemma_lookup_at(t, key, i - 1);
    }
}

proof fn lemma_lookup_none(members: Seq<(Seq<char>, JsonView)>, key: Seq<char>)
    requires
        forall|k: int| 0 <= k < members.len() ==> (#[trigger] members[k]).0 != key,
    ensures
        lookup(members, key) is None,
    decreases members.len(),
{
    if members.len() > 0 {
        let t = members.drop_first();
        assert forall|k: int| 0 <= k < t.len() implies (#[trigger] t[k]).0 != key by {
            assert(t[k] == members[k + 1]);
        }
        lemma_lookup_none(t, key);
    }
}

impl Json {
    /// A member-by-member copy.
    pub fn duplicate(&self) -> (r: Json)
        ensures
            r@ == self@,
        decreases self,
    {
        match self {
            Json::Null => Json::Null,
            Json::Bool(b) => Json::Bool(*b),
            Json::Number(n) => Json::Number(*n),
            Json::Str(s) => Json::Str(s.clone()),
            Json::Array(v) => {
                let mut out: Vec<Json> = Vec::new();
                let mut i: usize = 0;
                while i < v.len()
                    invariant
                        i <= v@.len(),
                        out@.len() == i,
                        *self == Json::Array(*v),
                        forall|k: int| 0 <= k < i ==> json_view(#[trigger] out@[k]) == json_view(v@[k]),
                    decreases v@.len() - i,
                {
                    proof {
                        assert(decreases_to!(*self => (*self)->Array_0));
                        assert(decreases_to!(*v => v@));
                        assert(decreases_to!(v@ => v@[i as int]));
                    }
                    let e = v[i].duplicate();
                    out.push(e);
                    i = i + 1;
                }
                let r = Json::Array(out);
                proof {
                    let a = json_view(r)->Array_0;
                    let b = json_view(*self)->Array_0;
                    assert forall|k: int| 0 <= k < a.len() implies a[k] == b[k] by {
                        assert(json_view(out@[k]) == json_view(v@[k]));
                    }
                    assert(a =~= b);
                }
                r
            },
            Json::Object(v) => {
                let mut out: Vec<(String, Json)> = Vec::new();
                let mut i: usize = 0;
                while i < v.len()
                    invariant
                        i <= v@.len(),
                        out@.len() == i,
                        *self == Json::Object(*v),
                        forall|k: int|
                            0 <= k < i ==> (#[trigger] out@[k]).0@ == v@[k].0@ && json_view(out@[k].1)
                                == json_view(v@[k].1),
                    decreases v@.len() - i,
                {
                    proof {
                        assert(decreases_to!(*self => (*self)->Object_0));
                        assert(decreases_to!(*v => v@));
                        assert(decreases_to!(v@ => v@[i as int]));
                        assert(decreases_to!(v@[i as int] => v@[i as int].1));
                    }
                    let e = v[i].1.duplicate();
                    out.push((v[i].0.clone(), e));
                    i = i + 1;
                }
                let r = Json::Object(out);
                proof {
                    let a = json_view(r)->Object_0;
                    let b = json_view(*self)->Object_0;
                    assert forall|k: int| 0 <= k < a.len() implies a[k] == b[k] by {
                        assert(out@[k].0@ == v@[k].0@);
                    }
                    assert(a =~= b);
                }
                r
            },
        }
    }

    /// The first member named `key` of an object.
    pub fn get(&self, key: &str) -> (r: Option<&Json>)
        ensures
            match r {
                Some(x) => field(self@, key@) == Some(x@),
                None => field(self@, key@) is None,
            },
    {
        match self {
            Json::Object(members) => {
                let ghost mv = json_view(*self)->Object_0;
                let mut i: usize = 0;
                while i < members.len()
                    invariant
                        i <= members@.len(),
                        *self == Json::Object(*members),
                        mv == json_view(*self)->Object_0,
                        mv.len() == members@.len(),
                        forall|k: int| 0 <= k < members@.len() ==> #[trigger] mv[k] == (members@[k].0@, json_view(members@[k].1)),
                        forall|k: int| 0 <= k < i ==> (#[trigger] mv[k]).0 != key@,
                    decreases members@.len() - i,
                {
                    let name = members[i].0.as_str();
                    if crate::text::text_eq(name, key) {
                        proof {
                            lemma_lookup_at(mv, key@, i as int);
                        }
                        return Some(&members[i].1);
                    }
                    i = i + 1;
                }
                proof {
                    lemma_lookup_none(mv, key@);
                }
                None
            },
            _ => None,
        }
    }

    /// The text of a string value.
    pub fn as_text(&self) -> (r: Option<&String>)
        ensures
            match r {
                Some(s) => text_of(self@) == Some(s@),
                None => text_of(self@) is None,
            },
    {
        match self {
            Json::Str(s) => Some(s),
            _ => None,
        }
    }

    /// The items of an array value.
    pub fn as_items(&self) -> (r: Option<&Vec<Json>>)
        ensures
            match r {
                Some(v) => items_of(self@) == Some(json_views(v@)),
                None => items_of(self@) is None,
            },
    {
        match self {
            Json::Array(v) => {
                assert(json_views(v@) =~= json_view(*self)->Array_0);
                Some(v)
            },
            _ => None,
        }
    }

    /// The integer of a number value that fits in `i64`.
    pub fn as_int(&self) -> (r: Option<i64>)
        ensures
            r == int_of(self@),
    {
        match self {
            Json::Number(n) => *n,
            _ => None,
        }
    }
}

/// A JSON string.
pub fn text_value(s: &str) -> (r: Json)
    ensures
        r@ == JsonView::Str(s@),
{
    Json::Str(String::from_str(s))
}

} // verus!
