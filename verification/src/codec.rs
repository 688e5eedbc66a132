//! The boundary with `serde_json`, which reads and writes JSON text.
//!
//! Text becomes a `serde_json::Value` and a `Value` becomes a [`Json`] tree,
//! one node for one node; the way back is the same. Everything in this module
//! that is marked `external_body` is believed, not proved.
//!
//! `serde_json` is used with its default map, which keeps an object's members
//! by their keys in the keys' order. So what a `Value` holds is a tree whose
//! objects are maps, and the text written for it depends on that tree alone.
//! Nothing is claimed about what the parser accepts or what the writer writes
//! beyond that: the two are named, and the contracts speak of the names.

use crate::json::{Json, JsonView, Member, NumberView};
use vstd::prelude::*;

verus! {

#[verifier::external_type_specification]
#[verifier::external_body]
pub struct ExValue(serde_json::Value);

#[verifier::external_type_specification]
#[verifier::external_body]
pub struct ExNumber(serde_json::Number);

#[verifier::external_type_specification]
#[verifier::external_body]
pub struct ExError(serde_json::Error);

/// The JSON tree that a `serde_json::Value` holds: its variant, and below an
/// array or an object the trees of its elements or of its members by key.
pub uninterp spec fn value_tree(v: serde_json::Value) -> JsonView;

/// The number that a `serde_json::Number` holds: an integer, or a binary64
/// real by its bit pattern.
pub uninterp spec fn number_model(n: serde_json::Number) -> NumberView;

/// What `serde_json::from_str` makes of a text: the tree of the value it
/// returns, or `None` where it returns an error.
pub uninterp spec fn parsed(text: Seq<char>) -> Option<JsonView>;

/// The compact text that `serde_json::to_string` writes for a value that
/// holds the given tree.
pub uninterp spec fn rendered(tree: JsonView) -> Seq<char>;

/// Calls `serde_json::from_str::<Value>`. The contract only names the
/// outcome: the value's tree is `parsed` of the text, and an error comes
/// exactly where `parsed` is `None`.
#[verifier::external_body]
pub(crate) fn parse_value(text: &str) -> (r: Result<serde_json::Value, serde_json::Error>)
    ensures
        match r {
            Ok(v) => parsed(text@) == Some(value_tree(v)),
            Err(_) => parsed(text@) is None,
        },
{
    serde_json::from_str::<serde_json::Value>(text)
}

/// Calls `serde_json::to_string` on a `Value`, which writes every value (its
/// keys are strings and its numbers finite). The contract names the text by
/// the value's tree.
#[verifier::external_body]
pub(crate) fn value_text(v: &serde_json::Value) -> (text: String)
    ensures
        text@ == rendered(value_tree(*v)),
{
    serde_json::to_string(v).unwrap_or_default()
}

/// Calls the `Display` of `serde_json::Error` for its message. Nothing is
/// claimed of the text.
#[verifier::external_body]
pub(crate) fn error_text(e: &serde_json::Error) -> (text: String)
{
    e.to_string()
}

/// Calls `serde_json::Number::from(u64)`, which holds the integer as it is.
#[verifier::external_body]
pub(crate) fn number_of(n: u64) -> (number: serde_json::Number)
    ensures
        number_model(number) == NumberView::Integer(n as int),
{
    serde_json::Number::from(n)
}

/// Calls `serde_json::Number::from(i64)`, which holds the integer as it is.
#[verifier::external_body]
pub(crate) fn signed_number_of(n: i64) -> (number: serde_json::Number)
    ensures
        number_model(number) == NumberView::Integer(n as int),
{
    serde_json::Number::from(n)
}

/// `serde_json::Number` derives `Clone`: the copy holds the same number.
pub assume_specification[ <serde_json::Number as Clone>::clone ](
    n: &serde_json::Number,
) -> (copy: serde_json::Number)
    ensures
        number_model(copy) == number_model(*n),
;

/// Takes a `serde_json::Value` apart, one arm for each of its variants, and
/// builds the same tree as a [`Json`]. An object's members come out of its
/// map one for each key.
#[verifier::external_body]
pub(crate) fn from_value(v: &serde_json::Value) -> (tree: Json)
    ensures
        tree@ == value_tree(*v),
{
    match v {
        serde_json::Value::Null => Json::Null,
        serde_json::Value::Bool(b) => Json::Bool(*b),
        serde_json::Value::Number(n) => Json::Number(n.clone()),
        serde_json::Value::String(s) => Json::Text(s.clone()),
        serde_json::Value::Array(a) => Json::Array(a.iter().map(from_value).collect()),
        serde_json::Value::Object(m) => Json::Object(
            m.iter().map(|(k, x)| Member { key: k.clone(), value: from_value(x) }).collect(),
        ),
    }
}

/// Builds the `serde_json::Value` of a [`Json`] tree, one arm for each
/// variant. Members go into the object's map by `Map::insert` in their order,
/// so of two members with one key the later stays, as in the tree's view.
#[verifier::external_body]
pub(crate) fn to_value(tree: &Json) -> (v: serde_json::Value)
    ensures
        value_tree(v) == tree@,
{
    match tree {
        Json::Null => serde_json::Value::Null,
        Json::Bool(b) => serde_json::Value::Bool(*b),
        Json::Number(n) => serde_json::Value::Number(n.clone()),
        Json::Text(s) => serde_json::Value::String(s.clone()),
        Json::Array(items) => serde_json::Value::Array(items.iter().map(to_value).collect()),
        Json::Object(members) => {
            let mut map = serde_json::Map::new();
            for m in members { map.insert(m.key.clone(), to_value(&m.value)); }
            serde_json::Value::Object(map)
        },
    }
}

/// Why a text is not a JSON document.
#[derive(Debug, PartialEq, Eq)]
pub struct ParseFailure {
    /// The parser's own message, for the reader.
    pub detail: String,
}

/// Reads a JSON text into a tree.
///
/// Succeeds exactly on the texts that `serde_json` accepts, with the tree it
/// parses them to.
pub fn parse_document(text: &str) -> (r: Result<Json, ParseFailure>)
    ensures
        match r {
            Ok(doc) => parsed(text@) == Some(doc@),
            Err(_) => parsed(text@) is None,
        },
{
    match parse_value(text) {
        Ok(v) => Ok(from_value(&v)),
        Err(e) => Err(ParseFailure { detail: error_text(&e) }),
    }
}

/// Writes a tree as compact JSON text.
pub fn render_document(doc: &Json) -> (text: String)
    ensures
        text@ == rendered(doc@),
{
    let v = to_value(doc);
    value_text(&v)
}

} // verus!
