//! JSON as a tree of plain values: what a model or a client wrote, and the
//! payloads that the library composes.

use vstd::prelude::*;

use crate::single::Single;
use crate::strings::{signed_decimal, write_signed};

verus! {

#[derive(Debug, PartialEq, Eq)]
pub enum Json {
    Null,
    Bool(bool),
    /// A number, as the characters of its JSON literal.
    Number(String),
    /// A number given as a single-precision value.
    Single(Single),
    Text(String),
    Array(Vec<Json>),
    /// The members in the order in which they are walked.
    Object(Vec<Member>),
}

#[derive(Debug, PartialEq, Eq)]
pub struct Member {
    pub key: String,
    pub value: Json,
}

/// What a [`Json`] holds.
pub enum JsonView {
    Null,
    Bool(bool),
    Number(Seq<char>),
    Single(Single),
    Text(Seq<char>),
    Array(Seq<JsonView>),
    Object(Seq<(Seq<char>, JsonView)>),
}

impl DeepView for Json {
    type V = JsonView;

    open spec fn deep_view(&self) -> JsonView {
        self.tree()
    }
}

impl DeepView for Member {
    type V = (Seq<char>, JsonView);

    open spec fn deep_view(&self) -> (Seq<char>, JsonView) {
        (self.key@, self.value.tree())
    }
}

impl Json {
    pub open spec fn tree(self) -> JsonView
        decreases self,
    {
        match self {
            Json::Null => JsonView::Null,
            Json::Bool(b) => JsonView::Bool(b),
            Json::Number(s) => JsonView::Number(s@),
            Json::Single(x) => JsonView::Single(x),
            Json::Text(s) => JsonView::Text(s@),
            Json::Array(v) => JsonView::Array(
                Seq::new(
                    v@.len(),
                    |i: int|
                        if 0 <= i < v@.len() {
                            v@[i].tree()
                        } else {
                            JsonView::Null
                        },
                ),
            ),
            Json::Object(v) => JsonView::Object(
                Seq::new(
                    v@.len(),
                    |i: int|
                        if 0 <= i < v@.len() {
                            (v@[i].key@, v@[i].value.tree())
                        } else {
                            (Seq::empty(), JsonView::Null)
                        },
                ),
            ),
        }
    }

    pub fn is_null(&self) -> (r: bool)
        ensures
            r == (self.deep_view() is Null),
    {
        match self {
            Json::Null => true,
            _ => false,
        }
    }

    /// The same tree again.
    pub fn copy(&self) -> (r: Json)
        ensures
            r.deep_view() == self.deep_view(),
        decreases self,
    {
        match self {
            Json::Null => Json::Null,
            Json::Bool(b) => Json::Bool(*b),
            Json::Number(s) => Json::Number(s.clone()),
            Json::Single(x) => Json::Single(*x),
            Json::Text(s) => Json::Text(s.clone()),
            Json::Array(v) => {
                let mut out: Vec<Json> = Vec::new();
                let n: usize = v.len();
                for i in 0..n
                    invariant
                        n == v@.len(),
                        out@.len() == i,
                        *self == Json::Array(*v),
                        forall|j: int|
                            0 <= j < i ==> (#[trigger] out@[j]).tree() == v@[j].tree(),
                {
                    assert(decreases_to!(*self => self->Array_0@[i as int]));
                    out.push(v[i].copy());
                }
                let r = Json::Array(out);
                assert(r.tree()->Array_0 =~= self.tree()->Array_0);
                r
            },
            Json::Object(v) => {
                let mut out: Vec<Member> = Vec::new();
                let n: usize = v.len();
                for i in 0..n
                    invariant
                        n == v@.len(),
                        out@.len() == i,
                        *self == Json::Object(*v),
                        forall|j: int|
                            0 <= j < i ==> (#[trigger] out@[j]).value.tree() == v@[j].value.tree()
                                && out@[j].key@ == v@[j].key@,
                {
                    assert(decreases_to!(*self => self->Object_0@[i as int].value));
                    let value: Json = v[i].value.copy();
                    out.push(Member { key: v[i].key.clone(), value });
                }
                let r = Json::Object(out);
                assert(r.tree()->Object_0 =~= self.tree()->Object_0);
                r
            },
        }
    }
}

/// The object has the value under the key.
pub open spec fn has_member(j: JsonView, key: Seq<char>, value: JsonView) -> bool {
    j matches JsonView::Object(m) && exists|i: int| 0 <= i < m.len() && #[trigger] m[i] == (key, value)
}

/// The object has so many members.
pub open spec fn has_members(j: JsonView, n: nat) -> bool {
    j matches JsonView::Object(m) && m.len() == n
}

pub fn array(items: Vec<Json>) -> (r: Json)
    ensures
        r.deep_view() == JsonView::Array(items.deep_view()),
{
    let ghost held = items.deep_view();
    let r = Json::Array(items);
    assert(r.tree()->Array_0 =~= held);
    r
}

pub fn object(members: Vec<Member>) -> (r: Json)
    ensures
        r.deep_view() == JsonView::Object(members.deep_view()),
{
    let ghost held = members.deep_view();
    let r = Json::Object(members);
    assert(r.tree()->Object_0 =~= held);
    r
}

pub fn text(s: &str) -> (r: Json)
    ensures
        r.deep_view() == JsonView::Text(s@),
{
    Json::Text(s.to_owned())
}

pub fn integer(n: i64) -> (r: Json)
    ensures
        r.deep_view() == JsonView::Number(signed_decimal(n as int)),
{
    Json::Number(write_signed(n))
}

pub open spec fn text_or_null(s: Option<Seq<char>>) -> JsonView {
    match s {
        Some(t) => JsonView::Text(t),
        None => JsonView::Null,
    }
}

/// The text, or null where there is none.
pub fn optional_text(s: &Option<String>) -> (r: Json)
    ensures
        r.deep_view() == text_or_null(s.deep_view()),
{
    match s {
        Some(t) => Json::Text(t.clone()),
        None => Json::Null,
    }
}

pub fn member(key: &str, value: Json) -> (r: Member)
    ensures
        r.deep_view() == (key@, value.deep_view()),
{
    Member { key: key.to_owned(), value }
}

} // verus!
