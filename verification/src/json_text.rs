//! JSON values as text, written by `serde_json`: the compact form and the
//! indented form (two spaces per level).
use crate::json::JsonValue;
use vstd::prelude::*;

verus! {

/// Declares `serde_json::Value`, the form `serde_json` writes from, as opaque.
#[verifier::external_type_specification]
#[verifier::external_body]
pub struct ExSerdeValue(serde_json::Value);

/// The indented JSON text of a value (`serde_json::to_string_pretty`).
pub uninterp spec fn pretty_json(v: JsonValue) -> Seq<char>;

/// The compact JSON text of a value (`serde_json::to_string`).
pub uninterp spec fn compact_json(v: JsonValue) -> Seq<char>;

/// The same value in `serde_json`'s form, one node for one node (a number
/// keeps its text). Nothing is stated: the result is only handed to
/// `serde_json`'s writers below.
#[verifier::external_body]
fn serde_value(v: &JsonValue) -> serde_json::Value {
    match v {
        JsonValue::Null => serde_json::Value::Null,
        JsonValue::Bool(b) => serde_json::Value::Bool(*b),
        JsonValue::Number(n) => n.parse().map_or(serde_json::Value::Null, serde_json::Value::Number),
        JsonValue::Str(s) => serde_json::Value::String(s.clone()),
        JsonValue::Array(a) => serde_json::Value::Array(a.iter().map(serde_value).collect()),
        JsonValue::Object(m) => serde_json::Value::Object(m.iter().map(|(k, x)| (k.clone(), serde_value(x))).collect()),
    }
}

/// Writes `v` with `serde_json::to_string_pretty`. Claims: the text depends
/// on the value alone (writing a `serde_json::Value` cannot fail).
#[verifier::external_body]
pub(crate) fn to_pretty_json(v: &JsonValue) -> (r: String)
    ensures
        r@ == pretty_json(*v),
{
    serde_json::to_string_pretty(&serde_value(v)).unwrap_or_default()
}

/// Writes `v` with `serde_json::to_string`. Claims: the text depends on the
/// value alone (writing a `serde_json::Value` cannot fail).
#[verifier::external_body]
pub(crate) fn to_compact_json(v: &JsonValue) -> (r: String)
    ensures
        r@ == compact_json(*v),
{
    serde_json::to_string(&serde_value(v)).unwrap_or_default()
}

} // verus!
