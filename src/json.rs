//! A generic JSON tree, independent of any schema, and its parser.

use vstd::prelude::*;

verus! {

/// The shape of a JSON value. Null, booleans, numbers and strings are
/// scalars: the diff compares them by their text alone.
pub enum JsonNode {
    Scalar,
    Array(Vec<JsonValue>),
    Object(Vec<JsonMember>),
}

/// A JSON value: its compact text and its shape. Objects list their members
/// in the order in which the parser's map yields them.
pub struct JsonValue {
    pub text: String,
    pub node: JsonNode,
}

/// One member of a JSON object.
pub struct JsonMember {
    pub key: String,
    pub value: JsonValue,
}

/// The tree that the JSON parser yields for a text, or `None` when the text
/// is not well-formed JSON.
pub uninterp spec fn parsed_json(s: Seq<char>) -> Option<JsonValue>;

#[verifier::external_type_specification]
#[verifier::external_body]
pub struct ExSerdeJsonValue(serde_json::Value);

/// Relies on serde_json's `Value` and its `Display`: copies a parsed tree node
/// for node, each node with its compact text.
#[verifier::external_body]
fn tree_of(v: &serde_json::Value) -> JsonValue {
    let node = match v {
        serde_json::Value::Array(items) => JsonNode::Array(items.iter().map(tree_of).collect()),
        serde_json::Value::Object(map) => JsonNode::Object(
            map.iter().map(|(k, x)| JsonMember { key: k.clone(), value: tree_of(x) }).collect(),
        ),
        _ => JsonNode::Scalar,
    };
    JsonValue { text: v.to_string(), node }
}

/// Relies on serde_json::from_str into a `serde_json::Value`: the parsed tree,
/// or `None` on malformed input.
#[verifier::external_body]
pub(crate) fn parse_json(s: &str) -> (r: Option<JsonValue>)
    ensures
        r == parsed_json(s@),
{
    serde_json::from_str::<serde_json::Value>(s).ok().map(|v| tree_of(&v))
}

} // verus!
