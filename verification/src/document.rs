//! JSON documents, as `serde_json` reads them.
//!
//! The parser and the values it builds belong to `serde_json`. This module is the whole
//! of what the crate believes about them without proof: that reading a document gives a
//! result that depends on its bytes alone, and that a value shows one fixed shape when
//! it is looked at.

use serde_json::Value;
use vstd::prelude::*;

verus! {

/// `serde_json::Value`, a JSON value. Nothing inside it is visible to the verifier.
#[verifier::external_type_specification]
#[verifier::external_body]
pub struct ExValue(serde_json::Value);

/// What a JSON value holds, one level deep.
pub enum JsonShape {
    Null,
    Bool(bool),
    /// A number, with its value where it is a whole number from 0 to 2^64 - 1.
    Number(Option<u64>),
    Text(Seq<char>),
    List(Seq<Value>),
    /// The members of an object, each a name and a value.
    Object(Seq<(Seq<char>, Value)>),
}

/// The value that `serde_json::from_slice` reads from `bytes`, where it accepts them.
pub uninterp spec fn json_document(bytes: Seq<u8>) -> Option<Value>;

/// The shape of `value`.
pub uninterp spec fn json_shape(value: Value) -> JsonShape;

/// A JSON value opened up by one level: what [`inspect`] hands to the decoder.
pub enum JsonNode<'a> {
    Null,
    Bool(bool),
    Number(Option<u64>),
    Text(&'a str),
    List(&'a Vec<Value>),
    Object(Vec<(&'a String, &'a Value)>),
}

/// The members of an object as names and values.
pub open spec fn member_views(members: Seq<(&String, &Value)>) -> Seq<(Seq<char>, Value)> {
    members.map_values(|m: (&String, &Value)| (m.0@, *m.1))
}

impl<'a> View for JsonNode<'a> {
    type V = JsonShape;

    open spec fn view(&self) -> JsonShape {
        match *self {
            JsonNode::Null => JsonShape::Null,
            JsonNode::Bool(b) => JsonShape::Bool(b),
            JsonNode::Number(n) => JsonShape::Number(n),
            JsonNode::Text(s) => JsonShape::Text(s@),
            JsonNode::List(items) => JsonShape::List(items@),
            JsonNode::Object(members) => JsonShape::Object(member_views(members@)),
        }
    }
}

/// Calls `serde_json::from_slice` to read `bytes` as one JSON value.
///
/// Believed: the outcome depends on `bytes` alone, so that it can be named
/// `json_document(bytes)`; `None` stands for any error of the parser.
#[verifier::external_body]
pub(crate) fn read_json(bytes: &[u8]) -> (document: Option<Value>)
    ensures
        document == json_document(bytes@),
{
    serde_json::from_slice::<Value>(bytes).ok()
}

/// Tells the variants of `serde_json::Value` apart and hands out what the variant holds:
/// a number through `Number::as_u64`, the members of an object in the order in which
/// `Map::iter` yields them.
///
/// Believed: what comes out depends on `value` alone, so that it can be named
/// `json_shape(value)`.
#[verifier::external_body]
pub(crate) fn inspect<'a>(value: &'a Value) -> (node: JsonNode<'a>)
    ensures
        node@ == json_shape(*value),
{
    match value {
        Value::Null => JsonNode::Null,
        Value::Bool(b) => JsonNode::Bool(*b),
        Value::Number(n) => JsonNode::Number(n.as_u64()),
        Value::String(s) => JsonNode::Text(s.as_str()),
        Value::Array(items) => JsonNode::List(items),
        Value::Object(members) => JsonNode::Object(members.iter().collect()),
    }
}

} // verus!
