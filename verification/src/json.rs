//! JSON documents, as `serde_json` builds and prints them.
use serde_json::{Error, Value};
use vstd::prelude::*;

verus! {

/// `serde_json::Value`, a JSON document that is only carried.
#[verifier::external_type_specification]
#[verifier::external_body]
pub struct ExValue(serde_json::Value);

/// `serde_json::Error`, which is only carried.
#[verifier::external_type_specification]
#[verifier::external_body]
pub struct ExError(serde_json::Error);

/// The JSON string that holds `text`.
pub uninterp spec fn json_string(text: Seq<char>) -> serde_json::Value;

/// The JSON array of `items`, in order.
pub uninterp spec fn json_array(items: Seq<serde_json::Value>) -> serde_json::Value;

/// The JSON object with these fields, in order.
pub uninterp spec fn json_object(fields: Seq<(Seq<char>, serde_json::Value)>) -> serde_json::Value;

/// The bytes of a JSON document, printed with line breaks and indentation.
pub uninterp spec fn json_pretty(document: serde_json::Value) -> Seq<u8>;

/// Named values as fields of an object.
pub open spec fn field_views(fields: Seq<(String, Value)>) -> Seq<(Seq<char>, Value)> {
    fields.map_values(|field: (String, Value)| (field.0@, field.1))
}

/// `serde_json::Value::from` on a `String`: the JSON string that holds it.
#[verifier::external_body]
pub(crate) fn string(text: String) -> (value: Value)
    ensures
        value == json_string(text@),
{
    Value::from(text)
}

/// `serde_json::Value::from` on a vector of values: the JSON array of them.
#[verifier::external_body]
pub(crate) fn array(items: Vec<Value>) -> (value: Value)
    ensures
        value == json_array(items@),
{
    Value::from(items)
}

/// `serde_json::Value::from_iter` on pairs of a name and a value: the JSON object
/// with those fields.
#[verifier::external_body]
pub(crate) fn object(fields: Vec<(String, Value)>) -> (value: Value)
    ensures
        value == json_object(field_views(fields@)),
{
    Value::from_iter(fields)
}

/// `serde_json::to_vec_pretty` on a JSON document: its text as bytes. It fails
/// only on a map with keys that are no strings, or where the value refuses to be
/// serialized; a `serde_json::Value` holds no such map and never refuses.
#[verifier::external_body]
pub(crate) fn to_vec_pretty(document: &Value) -> (printed: Result<Vec<u8>, Error>)
    ensures
        printed is Ok,
        printed->Ok_0@ == json_pretty(*document),
{
    serde_json::to_vec_pretty(document)
}

} // verus!
