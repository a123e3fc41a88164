//! JSON values as the engine holds them.
//!
//! Tool inputs and trace payloads are free-form JSON. The engine keeps them in
//! a tree of its own, [`JsonValue`], so that the rules that read or cut them
//! are stated over plain data. Numbers are carried as the text that JSON
//! writes for them; the engine never computes with them.

use vstd::prelude::*;

verus! {

/// A JSON value.
#[derive(Debug, PartialEq, Eq)]
pub enum JsonValue {
    Null,
    Bool(bool),
    /// A number, as its JSON text.
    Number(String),
    Str(String),
    Array(Vec<JsonValue>),
    /// The members of an object, in the order in which they are written.
    Object(Vec<(String, JsonValue)>),
}

/// The mathematical model of a [`JsonValue`].
pub enum JsonView {
    Null,
    Bool(bool),
    Number(Seq<char>),
    Str(Seq<char>),
    Array(Seq<JsonView>),
    Object(Seq<MemberView>),
}

/// The mathematical model of one member of an object.
pub struct MemberView {
    pub key: Seq<char>,
    pub value: JsonView,
}

impl View for JsonValue {
    type V = JsonView;

    open spec fn view(&self) -> JsonView
        decreases self,
    {
        match self {
            JsonValue::Null => JsonView::Null,
            JsonValue::Bool(b) => JsonView::Bool(*b),
            JsonValue::Number(n) => JsonView::Number(n@),
            JsonValue::Str(s) => JsonView::Str(s@),
            JsonValue::Array(items) => JsonView::Array(
                Seq::new(
                    items@.len(),
                    |i: int|
                        if 0 <= i < items@.len() {
                            items@[i].view()
                        } else {
                            JsonView::Null
                        },
                ),
            ),
            JsonValue::Object(members) => JsonView::Object(
                Seq::new(
                    members@.len(),
                    |i: int|
                        if 0 <= i < members@.len() {
                            MemberView { key: members@[i].0@, value: members@[i].1.view() }
                        } else {
                            MemberView { key: Seq::empty(), value: JsonView::Null }
                        },
                ),
            ),
        }
    }
}

/// The models of `items`, in order.
pub open spec fn item_views(items: Seq<JsonValue>) -> Seq<JsonView> {
    Seq::new(items.len(), |i: int| items[i]@)
}

/// The models of `members`, in order.
pub open spec fn member_views(members: Seq<(String, JsonValue)>) -> Seq<MemberView> {
    Seq::new(members.len(), |i: int| MemberView { key: members[i].0@, value: members[i].1@ })
}

/// The view of an array is the array of the views of its items.
pub proof fn lemma_array_view(items: Vec<JsonValue>)
    ensures
        JsonValue::Array(items)@ == JsonView::Array(item_views(items@)),
{
    assert(JsonValue::Array(items)@->Array_0 =~= item_views(items@));
}

/// The view of an object is the sequence of the views of its members.
pub proof fn lemma_object_view(members: Vec<(String, JsonValue)>)
    ensures
        JsonValue::Object(members)@ == JsonView::Object(member_views(members@)),
{
    assert(JsonValue::Object(members)@->Object_0 =~= member_views(members@));
}

impl Clone for JsonValue {
    fn clone(&self) -> (r: Self)
        ensures
            r@ == self@,
        decreases self,
    {
        match self {
            JsonValue::Null => JsonValue::Null,
            JsonValue::Bool(b) => JsonValue::Bool(*b),
            JsonValue::Number(n) => JsonValue::Number(n.clone()),
            JsonValue::Str(s) => JsonValue::Str(s.clone()),
            JsonValue::Array(items) => {
                let mut out: Vec<JsonValue> = Vec::new();
                let mut i: usize = 0;
                while i < items.len()
                    invariant
                        i <= items.len(),
                        forall|j: int|
                            0 <= j < items@.len() ==> decreases_to!(self => #[trigger] items@[j]),
                        out.len() == i,
                        forall|j: int| 0 <= j < i ==> (#[trigger] out@[j])@ == items@[j]@,
                    decreases items.len() - i,
                {
                    let k = items[i].clone();
                    out.push(k);
                    i += 1;
                }
                proof {
                    lemma_array_view(out);
                    lemma_array_view(*items);
                    assert(item_views(out@) =~= item_views(items@));
                }
                JsonValue::Array(out)
            },
            JsonValue::Object(members) => {
                let mut out: Vec<(String, JsonValue)> = Vec::new();
                let mut i: usize = 0;
                while i < members.len()
                    invariant
                        i <= members.len(),
                        forall|j: int|
                            0 <= j < members@.len() ==> decreases_to!(self => (#[trigger] members@[j]).1),
                        out.len() == i,
                        forall|j: int|
                            0 <= j < i ==> (#[trigger] out@[j]).0@ == members@[j].0@ && out@[j].1@
                                == members@[j].1@,
                    decreases members.len() - i,
                {
                    let key = members[i].0.clone();
                    let value = members[i].1.clone();
                    out.push((key, value));
                    i += 1;
                }
                proof {
                    lemma_object_view(out);
                    lemma_object_view(*members);
                    assert(member_views(out@) =~= member_views(members@));
                }
                JsonValue::Object(out)
            },
        }
    }
}

/// The first index at or after `i` whose member has the key `key` (`members.len()` if none).
pub open spec fn member_index(members: Seq<MemberView>, key: Seq<char>, i: int) -> int
    decreases members.len() - i,
{
    if 0 <= i < members.len() && members[i].key != key {
        member_index(members, key, i + 1)
    } else {
        i
    }
}

/// The value of the first member of the object `v` whose key is `key`.
pub open spec fn member_of(v: JsonView, key: Seq<char>) -> Option<JsonView> {
    match v {
        JsonView::Object(members) => {
            let i = member_index(members, key, 0);
            if 0 <= i < members.len() {
                Some(members[i].value)
            } else {
                None
            }
        },
        _ => None,
    }
}

/// The text of `v`, where `v` is a string.
pub open spec fn text_in(v: JsonView) -> Option<Seq<char>> {
    match v {
        JsonView::Str(s) => Some(s),
        _ => None,
    }
}

impl JsonValue {
    /// A JSON string holding `text`.
    pub fn text(text: &str) -> (r: JsonValue)
        ensures
            r@ == JsonView::Str(text@),
    {
        JsonValue::Str(text.to_owned())
    }

    /// A JSON number holding `n`.
    pub fn count(n: u64) -> (r: JsonValue)
        ensures
            r@ == JsonView::Number(crate::text::decimal_text(n as nat)),
    {
        let digits = crate::text::decimal_chars(n as u128);
        let len = digits.len();
        let text = crate::text::text_of(&digits, 0, len);
        assert(digits@.subrange(0, len as int) == digits@);
        JsonValue::Number(text)
    }

    /// The value of the first member named `key`, where `self` is an object.
    pub fn get(&self, key: &str) -> (r: Option<&JsonValue>)
        ensures
            r.is_some() == member_of(self@, key@).is_some(),
            r matches Some(found) ==> Some(found@) == member_of(self@, key@),
    {
        match self {
            JsonValue::Object(members) => {
                proof {
                    lemma_object_view(*members);
                }
                let ghost ms = member_views(members@);
                let mut i: usize = 0;
                while i < members.len()
                    invariant
                        i <= members.len(),
                        ms == member_views(members@),
                        self@ == JsonView::Object(ms),
                        member_index(ms, key@, 0) == member_index(ms, key@, i as int),
                    decreases members.len() - i,
                {
                    if crate::text::str_eq(members[i].0.as_str(), key) {
                        assert(ms[i as int].key == key@);
                        assert(ms[i as int].value == members@[i as int].1@);
                        return Some(&members[i].1);
                    }
                    assert(ms[i as int].key != key@);
                    i += 1;
                }
                None
            },
            _ => None,
        }
    }

    /// The text held, where `self` is a string.
    pub fn as_str(&self) -> (r: Option<&str>)
        ensures
            r.is_some() == text_in(self@).is_some(),
            r matches Some(s) ==> Some(s@) == text_in(self@),
    {
        match self {
            JsonValue::Str(s) => Some(s.as_str()),
            _ => None,
        }
    }
}

/// `serde_json::Value`, which the engine hands to `serde_json` and never looks into.
#[verifier::external_type_specification]
#[verifier::external_body]
pub struct ExOutsideJson(serde_json::Value);

/// The compact JSON text that `serde_json` writes for a value: no white space
/// between tokens, strings escaped as `serde_json` escapes them, the members of
/// an object as a `serde_json::Map` holds them (sorted by key, a repeated key
/// keeping its last value).
pub uninterp spec fn json_text(v: JsonView) -> Seq<char>;

/// The `serde_json::Value` that stands for `v`: variant for variant, members
/// into a `serde_json::Map`, a number through `serde_json::Number`'s `FromStr`
/// (`null` where the text is no JSON number).
#[verifier::external_body]
fn outside_json(v: &JsonValue) -> serde_json::Value {
    match v {
        JsonValue::Null => serde_json::Value::Null,
        JsonValue::Bool(b) => serde_json::Value::Bool(*b),
        JsonValue::Number(n) => n.parse().map_or(serde_json::Value::Null, serde_json::Value::Number),
        JsonValue::Str(s) => serde_json::Value::String(s.clone()),
        JsonValue::Array(items) => serde_json::Value::Array(items.iter().map(outside_json).collect()),
        JsonValue::Object(members) => serde_json::Value::Object(
            members.iter().map(|m| (m.0.clone(), outside_json(&m.1))).collect(),
        ),
    }
}

/// `serde_json::to_string` on the `serde_json::Value` that stands for `v`:
/// the result is the named compact text of `v` (the empty text, should
/// `serde_json` refuse the value).
#[verifier::external_body]
pub(crate) fn compact_text(v: &JsonValue) -> (r: String)
    ensures
        r@ == json_text(v@),
{
    serde_json::to_string(&outside_json(v)).unwrap_or_default()
}

} // verus!
