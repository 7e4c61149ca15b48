//! JSON documents as text, by way of `serde_json`.

use serde_json::Value;
use vstd::prelude::*;
use crate::json::{Json, JsonNumber, JsonView};

verus! {

/// `serde_json::Value`, a document as `serde_json` keeps it.
#[verifier::external_type_specification]
#[verifier::external_body]
pub struct ExValue(serde_json::Value);

/// The document that a `serde_json::Value` holds.
pub uninterp spec fn held(value: serde_json::Value) -> JsonView;

/// The document that `serde_json::from_str` reads out of a text, or the text of
/// the error that it reports.
pub uninterp spec fn parsed(text: Seq<char>) -> Result<JsonView, Seq<char>>;

/// The document as `serde_json` keeps it: the entries of each object in the
/// order of its map, and of entries with one name the last.
pub uninterp spec fn stored(json: JsonView) -> JsonView;

/// The compact text that `serde_json` writes for a document that it holds.
pub uninterp spec fn written(json: JsonView) -> Seq<char>;

/// `serde_json::from_str::<Value>`, the error taken as its text. The contract
/// names what the call reads or reports; it does not say which texts are valid
/// JSON.
#[verifier::external_body]
fn read_value(text: &str) -> (r: Result<serde_json::Value, String>)
    ensures
        match r {
            Ok(value) => parsed(text@) == Ok::<JsonView, Seq<char>>(held(value)),
            Err(error) => parsed(text@) == Err::<JsonView, Seq<char>>(error@),
        },
{
    serde_json::from_str::<serde_json::Value>(text).map_err(|error| error.to_string())
}

/// Matches on `serde_json::Value` and moves each variant into its counterpart.
/// The contract says that the result is the document that the value holds. A
/// number comes with what `Number`'s `to_string`, `as_u64` and `as_i64` give.
#[verifier::external_body]
fn tree_of(value: &serde_json::Value) -> (r: Json)
    ensures
        r@ == held(*value),
{
    match value {
        Value::Null => Json::Null,
        Value::Bool(b) => Json::Bool(*b),
        Value::Number(n) => Json::Number(
            JsonNumber { text: n.to_string(), as_u64: n.as_u64(), as_i64: n.as_i64() },
        ),
        Value::String(s) => Json::Text(s.clone()),
        Value::Array(items) => Json::List(items.iter().map(tree_of).collect()),
        Value::Object(map) => Json::Object(
            map.iter().map(|(k, v)| (k.clone(), tree_of(v))).collect(),
        ),
    }
}

/// Builds the `serde_json::Value` of a document, variant by variant. The
/// contract names the document that the value then holds.
#[verifier::external_body]
fn value_of(json: &Json) -> (r: serde_json::Value)
    ensures
        held(r) == stored(json@),
{
    match json {
        Json::Null => Value::Null,
        Json::Bool(b) => Value::Bool(*b),
        Json::Number(n) => match (n.as_u64, n.as_i64) {
            (Some(u), _) => Value::from(u),
            (_, Some(i)) => Value::from(i),
            _ => n.text.parse().ok().and_then(serde_json::Number::from_f64).into(),
        },
        Json::Text(s) => Value::String(s.clone()),
        Json::List(items) => Value::Array(items.iter().map(value_of).collect()),
        Json::Object(es) => es.iter().map(|(k, v)| (k.clone(), value_of(v))).collect(),
    }
}

/// `Value::to_string`, the compact form. The contract names the text.
#[verifier::external_body]
fn value_text(value: &serde_json::Value) -> (r: String)
    ensures
        r@ == written(held(*value)),
{
    value.to_string()
}

/// Reads a document out of its text.
pub fn parse_json(text: &str) -> (r: Result<Json, String>)
    ensures
        match r {
            Ok(json) => parsed(text@) == Ok::<JsonView, Seq<char>>(json@),
            Err(error) => parsed(text@) == Err::<JsonView, Seq<char>>(error@),
        },
{
    match read_value(text) {
        Ok(value) => Ok(tree_of(&value)),
        Err(error) => Err(error),
    }
}

/// The compact text of a document.
pub open spec fn json_text(json: JsonView) -> Seq<char> {
    written(stored(json))
}

/// The compact text of a document.
pub fn to_text(json: &Json) -> (r: String)
    ensures
        r@ == json_text(json@),
{
    let value: serde_json::Value = value_of(json);
    value_text(&value)
}

} // verus!
