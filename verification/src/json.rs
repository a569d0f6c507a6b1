//! JSON documents, as `serde_json` reads and writes them.
//!
//! A `serde_json::Value` is opaque to the verifier.  What it holds is modelled
//! by [`JsonTree`]; every function of this file is a thin call into
//! `serde_json` whose contract is taken on trust and says, over that model,
//! what the call returns.

use vstd::prelude::*;

verus! {

/// `serde_json::Value`, carried through as it is.
#[verifier::external_type_specification]
#[verifier::external_body]
pub struct ExValue(serde_json::Value);

/// `serde_json::Error`, carried through as it is.
#[verifier::external_type_specification]
#[verifier::external_body]
pub struct ExJsonError(serde_json::Error);

/// The mathematical content of a JSON document.
pub enum JsonTree {
    Null,
    Bool(bool),
    /// A number, by the text that `serde_json` prints for it.
    Number(Seq<char>),
    /// A string, by its characters.
    Text(Seq<char>),
    /// An array, by its elements in their order.
    Array(Seq<JsonTree>),
    /// An object, by its members.  The members have no order of their own:
    /// `serde_json` keeps them sorted by key.
    Object(Map<Seq<char>, JsonTree>),
}

impl JsonTree {
    /// The member stored under `key`, or `Null` where `self` is not an object
    /// or has no such member.
    pub open spec fn member(self, key: Seq<char>) -> JsonTree {
        match self {
            JsonTree::Object(members) => if members.contains_key(key) {
                members[key]
            } else {
                JsonTree::Null
            },
            _ => JsonTree::Null,
        }
    }

    /// The element at `index`, or `Null` where `self` is not an array or is
    /// too short.
    pub open spec fn element(self, index: int) -> JsonTree {
        match self {
            JsonTree::Array(items) => if 0 <= index < items.len() {
                items[index]
            } else {
                JsonTree::Null
            },
            _ => JsonTree::Null,
        }
    }
}

/// What a `serde_json::Value` holds.
pub uninterp spec fn json_tree(value: serde_json::Value) -> JsonTree;

/// What `serde_json::from_str` makes of a text: the document it denotes, or
/// `None` where it refuses the text.
pub uninterp spec fn json_parsed(text: Seq<char>) -> Option<JsonTree>;

/// The compact text that `serde_json` prints for a document, the members of
/// an object in the order of their keys.
pub uninterp spec fn json_text(tree: JsonTree) -> Seq<char>;

/// `serde_json::from_str` at type `Value`.  Trusted: what it makes of a text
/// depends on the text alone, and is what `json_parsed` names.
#[verifier::external_body]
pub(crate) fn parse(text: &str) -> (r: Result<serde_json::Value, serde_json::Error>)
    ensures
        r matches Ok(value) ==> json_parsed(text@) == Some(json_tree(value)),
        r is Err ==> json_parsed(text@) is None,
{
    serde_json::from_str(text)
}

/// `value[key]`, the `Index<&str>` impl of `Value`.  Trusted: it yields the
/// member under `key` of an object and `Value::Null` in every other case.
#[verifier::external_body]
pub(crate) fn member<'a>(value: &'a serde_json::Value, key: &str) -> (r: &'a serde_json::Value)
    ensures
        json_tree(*r) == json_tree(*value).member(key@),
{
    &value[key]
}

/// `value[index]`, the `Index<usize>` impl of `Value`.  Trusted: it yields
/// the element at `index` of an array and `Value::Null` in every other case.
#[verifier::external_body]
pub(crate) fn element<'a>(value: &'a serde_json::Value, index: usize) -> (r: &'a serde_json::Value)
    ensures
        json_tree(*r) == json_tree(*value).element(index as int),
{
    &value[index]
}

/// `Value::as_str`.  Trusted: it yields the text of a JSON string and `None`
/// for every other kind of value.
#[verifier::external_body]
pub(crate) fn as_text<'a>(value: &'a serde_json::Value) -> (r: Option<&'a str>)
    ensures
        match json_tree(*value) {
            JsonTree::Text(text) => r matches Some(s) && s@ == text,
            _ => r is None,
        },
{
    value.as_str()
}

/// `Value::to_string`, the compact `Display` form.  Trusted: the text
/// depends on what the value holds alone, and is what `json_text` names.
#[verifier::external_body]
pub(crate) fn to_text(value: &serde_json::Value) -> (r: String)
    ensures
        r@ == json_text(json_tree(*value)),
{
    value.to_string()
}

/// What each of the values holds.
pub open spec fn json_trees(values: Seq<serde_json::Value>) -> Seq<JsonTree> {
    values.map_values(|value: serde_json::Value| json_tree(value))
}

/// Whether no two entries have the same key.
pub open spec fn distinct_keys(entries: Seq<(String, serde_json::Value)>) -> bool {
    forall|i: int, j: int|
        0 <= i < j < entries.len() ==> (#[trigger] entries[i]).0@ != (#[trigger] entries[j]).0@
}

/// The members that the entries make up: each key with what its value holds.
pub open spec fn json_members(entries: Seq<(String, serde_json::Value)>) -> Map<
    Seq<char>,
    JsonTree,
>
    decreases entries.len(),
{
    if entries.len() == 0 {
        Map::empty()
    } else {
        json_members(entries.drop_last()).insert(
            entries.last().0@,
            json_tree(entries.last().1),
        )
    }
}

/// `Value::String`.  Trusted: the value is the JSON string of that text.
#[verifier::external_body]
pub(crate) fn text_value(text: String) -> (r: serde_json::Value)
    ensures
        json_tree(r) == JsonTree::Text(text@),
{
    serde_json::Value::String(text)
}

/// `Value::Bool`.  Trusted: the value is that JSON boolean.
#[verifier::external_body]
pub(crate) fn bool_value(flag: bool) -> (r: serde_json::Value)
    ensures
        json_tree(r) == JsonTree::Bool(flag),
{
    serde_json::Value::Bool(flag)
}

/// `Value::Array`.  Trusted: the value is the JSON array of the items, in
/// their order.
#[verifier::external_body]
pub(crate) fn array_value(items: Vec<serde_json::Value>) -> (r: serde_json::Value)
    ensures
        json_tree(r) == JsonTree::Array(json_trees(items@)),
{
    serde_json::Value::Array(items)
}

/// `Value::Object` of a `serde_json::Map` collected from the entries.
/// Trusted: with no key twice, the value is the JSON object that has each
/// entry as a member, and no other.
#[verifier::external_body]
pub(crate) fn object_value(entries: Vec<(String, serde_json::Value)>) -> (r: serde_json::Value)
    requires
        distinct_keys(entries@),
    ensures
        json_tree(r) == JsonTree::Object(json_members(entries@)),
{
    serde_json::Value::Object(entries.into_iter().collect())
}

} // verus!
