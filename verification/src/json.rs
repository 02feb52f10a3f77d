//! JSON values, their members, and the two ends of the wire: reading a text
//! and writing one.

use crate::text;
use vstd::prelude::*;

verus! {

/// `serde_json::Value`, the tree that the parser hands back.
#[verifier::external_type_specification]
#[verifier::external_body]
pub struct ExValue(serde_json::Value);

/// `serde_json::Number`, a number as the parser keeps it.
#[verifier::external_type_specification]
#[verifier::external_body]
pub struct ExNumber(serde_json::Number);

/// A clone of a `serde_json::Number` is the same number.
pub assume_specification[ <serde_json::Number as Clone>::clone ](n: &serde_json::Number) -> (r:
    serde_json::Number)
    ensures
        r == *n,
;

/// A JSON value. `Int` is an integer that this library writes; `Number` is a
/// number that was read.
#[derive(Debug)]
pub enum Json {
    Null,
    Bool(bool),
    Int(i64),
    Number(serde_json::Number),
    Text(String),
    Array(Vec<Json>),
    Object(Vec<(String, Json)>),
}

/// What a JSON value holds.
#[verifier::ext_equal]
pub enum JsonView {
    Null,
    Bool(bool),
    Int(i64),
    Number(serde_json::Number),
    Text(Seq<char>),
    Array(Seq<JsonView>),
    Object(Seq<(Seq<char>, JsonView)>),
}

/// What `json` holds.
pub open spec fn view_of(json: Json) -> JsonView
    decreases json,
{
    match json {
        Json::Null => JsonView::Null,
        Json::Bool(b) => JsonView::Bool(b),
        Json::Int(i) => JsonView::Int(i),
        Json::Number(n) => JsonView::Number(n),
        Json::Text(t) => JsonView::Text(t@),
        Json::Array(items) => JsonView::Array(
            Seq::new(
                items@.len(),
                |i: int|
                    if 0 <= i < items@.len() {
                        view_of(items@[i])
                    } else {
                        JsonView::Null
                    },
            ),
        ),
        Json::Object(members) => JsonView::Object(
            Seq::new(
                members@.len(),
                |i: int|
                    if 0 <= i < members@.len() {
                        (members@[i].0@, view_of(members@[i].1))
                    } else {
                        (Seq::<char>::empty(), JsonView::Null)
                    },
            ),
        ),
    }
}

impl View for Json {
    type V = JsonView;

    open spec fn view(&self) -> JsonView {
        view_of(*self)
    }
}

/// The value of the first member called `key`.
pub open spec fn find(members: Seq<(Seq<char>, JsonView)>, key: Seq<char>) -> Option<JsonView>
    decreases members.len(),
{
    if members.len() == 0 {
        None
    } else if members[0].0 == key {
        Some(members[0].1)
    } else {
        find(members.drop_first(), key)
    }
}

/// The member of an object called `key`; anything but an object has none.
pub open spec fn member(json: JsonView, key: Seq<char>) -> Option<JsonView> {
    match json {
        JsonView::Object(members) => find(members, key),
        _ => None,
    }
}

/// The text of a JSON string.
pub open spec fn string(json: Option<JsonView>) -> Option<Seq<char>> {
    match json {
        Some(JsonView::Text(t)) => Some(t),
        _ => None,
    }
}

/// The text of the string member called `key`.
pub open spec fn string_member(json: JsonView, key: Seq<char>) -> Option<Seq<char>> {
    string(member(json, key))
}

/// What an optional JSON value holds.
pub open spec fn opt(json: Option<Json>) -> Option<JsonView> {
    match json {
        Some(j) => Some(j@),
        None => None,
    }
}

/// The value that `serde_json::from_str` reads out of `text`, if the text is
/// JSON.
pub uninterp spec fn parsed(text: Seq<char>) -> Option<JsonView>;

/// The text that `serde_json::to_string` writes for `json`.
pub uninterp spec fn rendered(json: JsonView) -> Seq<char>;

/// Converts a `serde_json::Value`, variant by variant, to the value that holds
/// the same.
#[verifier::external_body]
fn json_of_value(value: serde_json::Value) -> (json: Json)
{
    match value {
        serde_json::Value::Null => Json::Null,
        serde_json::Value::Bool(b) => Json::Bool(b),
        serde_json::Value::Number(n) => Json::Number(n),
        serde_json::Value::String(s) => Json::Text(s),
        serde_json::Value::Array(a) => Json::Array(a.into_iter().map(json_of_value).collect()),
        serde_json::Value::Object(o) => {
            Json::Object(o.into_iter().map(|(k, v)| (k, json_of_value(v))).collect())
        },
    }
}

/// Converts a value, variant by variant, to the `serde_json::Value` that holds
/// the same.
#[verifier::external_body]
fn value_of_json(json: &Json) -> (value: serde_json::Value)
{
    match json {
        Json::Null => serde_json::Value::Null,
        Json::Bool(b) => serde_json::Value::Bool(*b),
        Json::Int(i) => serde_json::Value::from(*i),
        Json::Number(n) => serde_json::Value::Number(n.clone()),
        Json::Text(s) => serde_json::Value::String(s.clone()),
        Json::Array(a) => serde_json::Value::Array(a.iter().map(value_of_json).collect()),
        Json::Object(o) => {
            serde_json::Value::Object(o.iter().map(|(k, v)| (k.clone(), value_of_json(v))).collect())
        },
    }
}

/// `serde_json::from_str`: reads `text` as one JSON value, or fails. The result
/// is a function of the text, under the name `parsed`.
#[verifier::external_body]
pub(crate) fn parse(text: &str) -> (r: Option<Json>)
    ensures
        opt(r) == parsed(text@),
{
    match serde_json::from_str::<serde_json::Value>(text) {
        Ok(value) => Some(json_of_value(value)),
        Err(_) => None,
    }
}

/// `serde_json::to_string`: writes `json` on one line. The result is a function
/// of the value, under the name `rendered`. It holds no line feed: none is put
/// between the parts, and those in texts are escaped.
#[verifier::external_body]
pub(crate) fn render(json: &Json) -> (r: String)
    ensures
        r@ == rendered(json@),
        !r@.contains('\n'),
{
    serde_json::to_string(&value_of_json(json)).expect("a JSON tree has string keys")
}

impl Json {
    /// The member called `key`, where this is an object that has one.
    pub fn get(&self, key: &str) -> (r: Option<&Json>)
        ensures
            match r {
                Some(j) => member(self@, key@) == Some(j@),
                None => member(self@, key@) is None,
            },
    {
        match self {
            Json::Object(members) => {
                let ghost all = self@->Object_0;
                let mut i: usize = 0;
                assert(all.skip(0) =~= all);
                while i < members.len()
                    invariant
                        i <= members@.len() == all.len(),
                        self@ == JsonView::Object(all),
                        *self == Json::Object(*members),
                        member(self@, key@) == find(all.skip(i as int), key@),
                    decreases members@.len() - i,
                {
                    assert(all[i as int].0 == members@[i as int].0@);
                    assert(all[i as int].1 == members@[i as int].1@);
                    if text::same(members[i].0.as_str(), key) {
                        return Some(&members[i].1);
                    }
                    assert(all.skip(i as int).drop_first() =~= all.skip(i + 1));
                    i = i + 1;
                }
                None
            },
            _ => None,
        }
    }

    /// The text of a JSON string.
    pub fn as_str(&self) -> (r: Option<&str>)
        ensures
            text::opt_str(r) == string(Some(self@)),
    {
        match self {
            Json::Text(t) => Some(t.as_str()),
            _ => None,
        }
    }

    /// Whether this is `null`.
    pub fn is_null(&self) -> (r: bool)
        ensures
            r == (self@ is Null),
    {
        match self {
            Json::Null => true,
            _ => false,
        }
    }

    /// The text of the string member called `key`.
    pub fn text_member(&self, key: &str) -> (r: Option<String>)
        ensures
            text::opt(r) == string_member(self@, key@),
    {
        match self.get(key) {
            Some(j) => match j.as_str() {
                Some(t) => Some(t.to_owned()),
                None => None,
            },
            None => None,
        }
    }
}

impl Clone for Json {
    fn clone(&self) -> (r: Self)
        ensures
            r@ == self@,
        decreases self,
    {
        match self {
            Json::Null => Json::Null,
            Json::Bool(b) => Json::Bool(*b),
            Json::Int(i) => Json::Int(*i),
            Json::Number(n) => Json::Number(n.clone()),
            Json::Text(t) => Json::Text(t.clone()),
            Json::Array(items) => {
                let mut out: Vec<Json> = Vec::new();
                let mut i: usize = 0;
                while i < items.len()
                    invariant
                        i <= items@.len(),
                        out@.len() == i,
                        *self == Json::Array(*items),
                        forall|j: int| 0 <= j < i ==> (#[trigger] out@[j])@ == items@[j]@,
                    decreases items@.len() - i,
                {
                    assert(decreases_to!(*self => self->Array_0));
                    assert(decreases_to!(*items => items[i as int]));
                    let item = items[i].clone();
                    out.push(item);
                    i = i + 1;
                }
                let r = Json::Array(out);
                assert(r@ =~= self@) by {
                    assert(r@->Array_0 =~= self@->Array_0);
                }
                r
            },
            Json::Object(members) => {
                let mut out: Vec<(String, Json)> = Vec::new();
                let mut i: usize = 0;
                while i < members.len()
                    invariant
                        i <= members@.len(),
                        out@.len() == i,
                        *self == Json::Object(*members),
                        forall|j: int|
                            0 <= j < i ==> (#[trigger] out@[j]).0@ == members@[j].0@
                                && out@[j].1@ == members@[j].1@,
                    decreases members@.len() - i,
                {
                    assert(decreases_to!(*self => self->Object_0));
                    assert(decreases_to!(*members => members[i as int]));
                    assert(decreases_to!(members[i as int] => members[i as int].1));
                    let key = members[i].0.clone();
                    let value = members[i].1.clone();
                    out.push((key, value));
                    i = i + 1;
                }
                let r = Json::Object(out);
                assert(r@ =~= self@) by {
                    assert(r@->Object_0 =~= self@->Object_0);
                }
                r
            },
        }
    }
}

/// What the members of an object hold.
pub open spec fn members_view(members: Seq<(String, Json)>) -> Seq<(Seq<char>, JsonView)> {
    Seq::new(members.len(), |i: int| (members[i].0@, members[i].1@))
}

/// Adds the member `key` with `value`.
pub fn push_member(members: &mut Vec<(String, Json)>, key: &str, value: Json)
    ensures
        members_view(final(members)@) == members_view(old(members)@).push((key@, value@)),
{
    let ghost before = members@;
    members.push((key.to_owned(), value));
    assert(members_view(members@) =~= members_view(before).push((key@, value@)));
}

/// The object with these members.
pub fn object(members: Vec<(String, Json)>) -> (r: Json)
    ensures
        r@ == JsonView::Object(members_view(members@)),
{
    let r = Json::Object(members);
    assert(r@->Object_0 =~= members_view(members@));
    r
}

/// A copy of an optional value.
pub fn copy_opt(json: &Option<Json>) -> (r: Option<Json>)
    ensures
        opt(r) == opt(*json),
{
    match json {
        Some(j) => Some(j.clone()),
        None => None,
    }
}

} // verus!
