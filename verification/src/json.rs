//! JSON documents as `serde_json` reads them. The values stay `serde_json`'s
//! own; what the rest of the library knows of them is stated here, and
//! believed.

use serde_json::Value;
use vstd::prelude::*;

verus! {

/// `serde_json::Value`, a JSON value of any kind. Nothing is known of one
/// but what the functions below say.
#[verifier::external_type_specification]
#[verifier::external_body]
pub struct ExValue(serde_json::Value);

/// `serde_json::Error`, why a text is no JSON document. It is only passed
/// on.
#[verifier::external_type_specification]
#[verifier::external_body]
pub struct ExJsonError(serde_json::Error);

/// What a JSON value holds, as far as this library looks into it: numbers
/// are told apart from the other kinds and not from each other.
pub enum JsonTree {
    Null,
    Bool(bool),
    Number,
    Text(Seq<char>),
    List(Seq<JsonTree>),
    Object(Map<Seq<char>, JsonTree>),
}

impl JsonTree {
    /// The member `key` of an object; `Null` where there is none or `self` is
    /// no object.
    pub open spec fn member(self, key: Seq<char>) -> JsonTree {
        match self {
            JsonTree::Object(members) => if members.contains_key(key) {
                members[key]
            } else {
                JsonTree::Null
            },
            _ => JsonTree::Null,
        }
    }

    /// The item at `index` of an array; `Null` where there is none or `self`
    /// is no array.
    pub open spec fn item(self, index: int) -> JsonTree {
        match self {
            JsonTree::List(items) => if 0 <= index < items.len() {
                items[index]
            } else {
                JsonTree::Null
            },
            _ => JsonTree::Null,
        }
    }
}

/// What a `serde_json::Value` holds.
pub uninterp spec fn json_tree(value: Value) -> JsonTree;

/// What `serde_json` reads from a text: `None` where the text is no JSON
/// document.
pub uninterp spec fn json_document(text: Seq<char>) -> Option<JsonTree>;

/// The trees of the values of a vector, in order.
pub open spec fn json_trees(values: Seq<Value>) -> Seq<JsonTree> {
    values.map_values(|v: Value| json_tree(v))
}

/// Calls `serde_json::from_str` for a `Value`. Trusted: whether the call
/// succeeds, and what the value holds if it does, depends on the text alone.
#[verifier::external_body]
pub(crate) fn json_from_str(text: &str) -> (r: Result<Value, serde_json::Error>)
    ensures
        match r {
            Ok(v) => json_document(text@) == Some(json_tree(v)),
            Err(_) => json_document(text@) is None,
        },
{
    serde_json::from_str::<Value>(text)
}

/// Indexes a `Value` by a key, `value[key]`. Trusted: `serde_json` gives the
/// member of that name if the value is an object that has one, and a null
/// value otherwise.
#[verifier::external_body]
pub(crate) fn json_member<'a>(value: &'a Value, key: &str) -> (r: &'a Value)
    ensures
        json_tree(*r) == json_tree(*value).member(key@),
{
    &value[key]
}

/// Indexes a `Value` by a position, `value[index]`. Trusted: `serde_json`
/// gives the item at that position if the value is an array that is long
/// enough, and a null value otherwise.
#[verifier::external_body]
pub(crate) fn json_item<'a>(value: &'a Value, index: usize) -> (r: &'a Value)
    ensures
        json_tree(*r) == json_tree(*value).item(index as int),
{
    &value[index]
}

/// Calls `Value::as_str`. Trusted: the string of a string value, `None` for
/// every other kind.
#[verifier::external_body]
pub(crate) fn json_as_str<'a>(value: &'a Value) -> (r: Option<&'a str>)
    ensures
        match r {
            Some(s) => json_tree(*value) == JsonTree::Text(s@),
            None => !(json_tree(*value) is Text),
        },
{
    value.as_str()
}

/// Calls `Value::as_array`. Trusted: the items of an array value, in order,
/// `None` for every other kind.
#[verifier::external_body]
pub(crate) fn json_as_array<'a>(value: &'a Value) -> (r: Option<&'a Vec<Value>>)
    ensures
        match r {
            Some(items) => json_tree(*value) == JsonTree::List(json_trees(items@)),
            None => !(json_tree(*value) is List),
        },
{
    value.as_array()
}

} // verus!
