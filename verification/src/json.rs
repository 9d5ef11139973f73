//! JSON values, one level at a time: what a tool's arguments are read from.

use serde_json::Value;
use vstd::prelude::*;
use crate::text;

verus! {

/// A number as it is written, and its value where that is a natural number
/// which fits.
#[derive(Debug)]
pub struct Number {
    pub text: String,
    pub uint: Option<u64>,
}

/// A JSON value. What an array or an object holds is kept as compact JSON text.
#[derive(Debug)]
pub enum Json {
    Null,
    Bool(bool),
    Num(Number),
    Str(String),
    Arr(Vec<String>),
    Obj(Vec<(String, String)>),
}

/// What a [`Json`] holds.
#[verifier::ext_equal]
pub enum JsonView {
    Null,
    Bool(bool),
    Num(Seq<char>, Option<u64>),
    Str(Seq<char>),
    Arr(Seq<Seq<char>>),
    Obj(Seq<(Seq<char>, Seq<char>)>),
}

/// The pairs of an object, each as its characters.
pub open spec fn pair_views(v: Seq<(String, String)>) -> Seq<(Seq<char>, Seq<char>)> {
    v.map_values(|p: (String, String)| (p.0@, p.1@))
}

pub broadcast proof fn pair_views_push(v: Seq<(String, String)>, p: (String, String))
    ensures
        #[trigger] pair_views(v.push(p)) == pair_views(v).push((p.0@, p.1@)),
{
    assert(pair_views(v.push(p)) =~= pair_views(v).push((p.0@, p.1@)));
}

impl View for Json {
    type V = JsonView;

    open spec fn view(&self) -> JsonView {
        match *self {
            Json::Null => JsonView::Null,
            Json::Bool(b) => JsonView::Bool(b),
            Json::Num(n) => JsonView::Num(n.text@, n.uint),
            Json::Str(s) => JsonView::Str(s@),
            Json::Arr(items) => JsonView::Arr(text::views(items@)),
            Json::Obj(pairs) => JsonView::Obj(pair_views(pairs@)),
        }
    }
}

/// What a value that may be missing holds.
pub open spec fn opt_view(v: Option<Json>) -> Option<JsonView> {
    match v {
        Some(j) => Some(j@),
        None => None,
    }
}

/// The JSON value a text is, by `serde_json`'s grammar; none where it is not JSON.
pub uninterp spec fn json_of(text: Seq<char>) -> Option<JsonView>;

/// No key stands twice.
pub open spec fn keys_differ(pairs: Seq<(Seq<char>, Seq<char>)>) -> bool {
    forall|i: int, j: int|
        0 <= i < j < pairs.len() ==> (#[trigger] pairs[i]).0 != (#[trigger] pairs[j]).0
}

/// `serde_json::from_str::<Value>`, one level deep: what is inside an array or
/// an object is handed out as the text that `Value::to_string` writes. The
/// result is a function of the text. The pairs of an object are those of a
/// `serde_json::Map`, a map by key, so no key stands twice.
#[verifier::external_body]
fn parse(text: &str) -> (r: Option<Json>)
    ensures
        opt_view(r) == json_of(text@),
        r matches Some(Json::Obj(pairs)) ==> keys_differ(pair_views(pairs@)),
{
    let read: Value = serde_json::from_str(text).ok()?;
    Some(match read {
        Value::Null => Json::Null,
        Value::Bool(b) => Json::Bool(b),
        Value::Number(n) => Json::Num(Number { text: n.to_string(), uint: n.as_u64() }),
        Value::String(s) => Json::Str(s),
        Value::Array(a) => Json::Arr(a.iter().map(|v| v.to_string()).collect()),
        Value::Object(o) => {
            Json::Obj(o.iter().map(|(k, v)| (k.clone(), v.to_string())).collect())
        },
    })
}

/// The position of `key` among the pairs, searched from `i` on; -1 where it has none.
pub open spec fn key_from(pairs: Seq<(Seq<char>, Seq<char>)>, key: Seq<char>, i: int) -> int
    decreases pairs.len() - i,
{
    if i < 0 || i >= pairs.len() {
        -1
    } else if pairs[i].0 == key {
        i
    } else {
        key_from(pairs, key, i + 1)
    }
}

impl JsonView {
    /// What stands under `key`; nothing where this is no object or has no such key.
    pub open spec fn field(self, key: Seq<char>) -> Option<JsonView> {
        match self {
            JsonView::Obj(pairs) => {
                let i = key_from(pairs, key, 0);
                if i < 0 {
                    None
                } else {
                    json_of(pairs[i].1)
                }
            },
            _ => None,
        }
    }

    /// The string under `key`.
    pub open spec fn str_at(self, key: Seq<char>) -> Option<Seq<char>> {
        match self.field(key) {
            Some(JsonView::Str(s)) => Some(s),
            _ => None,
        }
    }

    /// The natural number under `key`.
    pub open spec fn uint_at(self, key: Seq<char>) -> Option<u64> {
        match self.field(key) {
            Some(JsonView::Num(_, n)) => n,
            _ => None,
        }
    }

    /// The truth value under `key`.
    pub open spec fn bool_at(self, key: Seq<char>) -> Option<bool> {
        match self.field(key) {
            Some(JsonView::Bool(b)) => Some(b),
            _ => None,
        }
    }

    /// The strings of the array under `key`, without what is no string; nothing
    /// where there is no array.
    pub open spec fn strings_at(self, key: Seq<char>) -> Seq<Seq<char>> {
        match self.field(key) {
            Some(JsonView::Arr(items)) => only_strings(items),
            _ => Seq::empty(),
        }
    }
}

/// Those of the JSON texts that are strings, as the strings they are.
pub open spec fn only_strings(items: Seq<Seq<char>>) -> Seq<Seq<char>>
    decreases items.len(),
{
    if items.len() == 0 {
        Seq::empty()
    } else {
        let before = only_strings(items.drop_last());
        match json_of(items.last()) {
            Some(JsonView::Str(s)) => before.push(s),
            _ => before,
        }
    }
}

/// What an optional string holds.
pub open spec fn opt_str(s: Option<String>) -> Option<Seq<char>> {
    match s {
        Some(t) => Some(t@),
        None => None,
    }
}

impl Json {
    /// Reads a JSON text.
    pub fn from_text(text: &str) -> (r: Option<Json>)
        ensures
            opt_view(r) == json_of(text@),
            r matches Some(Json::Obj(pairs)) ==> keys_differ(pair_views(pairs@)),
    {
        parse(text)
    }

    /// What stands under `key`.
    pub fn get(&self, key: &str) -> (r: Option<Json>)
        ensures
            opt_view(r) == self@.field(key@),
    {
        match self {
            Json::Obj(pairs) => {
                let mut i: usize = 0;
                let ghost all = pair_views(pairs@);
                while i < pairs.len()
                    invariant
                        i <= pairs.len(),
                        all == pair_views(pairs@),
                        self@ == JsonView::Obj(all),
                        key_from(all, key@, i as int) == key_from(all, key@, 0),
                    decreases pairs.len() - i,
                {
                    assert(all[i as int] == (pairs@[i as int].0@, pairs@[i as int].1@));
                    if text::same(pairs[i].0.as_str(), key) {
                        return parse(pairs[i].1.as_str());
                    }
                    i = i + 1;
                }
                None
            },
            _ => None,
        }
    }

    /// The string under `key`.
    pub fn get_str(&self, key: &str) -> (r: Option<String>)
        ensures
            opt_str(r) == self@.str_at(key@),
    {
        match self.get(key) {
            Some(Json::Str(s)) => Some(s),
            _ => None,
        }
    }

    /// The natural number under `key`.
    pub fn get_uint(&self, key: &str) -> (r: Option<u64>)
        ensures
            r == self@.uint_at(key@),
    {
        match self.get(key) {
            Some(Json::Num(n)) => n.uint,
            _ => None,
        }
    }

    /// The truth value under `key`.
    pub fn get_bool(&self, key: &str) -> (r: Option<bool>)
        ensures
            r == self@.bool_at(key@),
    {
        match self.get(key) {
            Some(Json::Bool(b)) => Some(b),
            _ => None,
        }
    }

    /// The strings of the array under `key`.
    pub fn get_strings(&self, key: &str) -> (r: Vec<String>)
        ensures
            text::views(r@) == self@.strings_at(key@),
    {
        let mut r: Vec<String> = Vec::new();
        match self.get(key) {
            Some(Json::Arr(items)) => {
                let mut i: usize = 0;
                let ghost all = text::views(items@);
                assert(all.take(0) =~= Seq::<Seq<char>>::empty());
                while i < items.len()
                    invariant
                        i <= items.len(),
                        all == text::views(items@),
                        text::views(r@) =~= only_strings(all.take(i as int)),
                    decreases items.len() - i,
                {
                    proof {
                        let t = all.take(i + 1);
                        assert(t.drop_last() =~= all.take(i as int));
                        assert(t.last() == items@[i as int]@);
                    }
                    match parse(items[i].as_str()) {
                        Some(Json::Str(s)) => {
                            r.push(s);
                        },
                        _ => {},
                    }
                    i = i + 1;
                }
                assert(all.take(i as int) =~= all);
            },
            _ => {},
        }
        r
    }
}

} // verus!
