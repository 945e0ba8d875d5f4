use vstd::prelude::*;
use crate::json::{wf_if_object, Json, JsonMember, JsonNumber, JsonView};
use serde_json::{Number, Value};

verus! {

/// `serde_json::Value`, which the JSON text functions read and write.
#[verifier::external_type_specification]
#[verifier::external_body]
pub struct ExJsonValue(serde_json::Value);

/// The document `serde_json::from_str::<serde_json::Value>` reads from
/// `text`, as the library holds it, or `None` where it reads none.
pub uninterp spec fn parsed_json(text: Seq<char>) -> Option<JsonView>;

/// The compact text `serde_json::to_string` writes for the document `v`.
pub uninterp spec fn json_text(v: JsonView) -> Seq<char>;

/// The indented text `serde_json::to_string_pretty` writes for the document
/// `v`.
pub uninterp spec fn json_pretty_text(v: JsonView) -> Seq<char>;

/// A `serde_json::Value` as a `Json`, variant for variant; a number is told
/// apart by what it holds (`as_u64`, `as_i64`, else its written text).
#[verifier::external_body]
fn json_of_value(v: &Value) -> Json {
    match v {
        Value::Null => Json::Null,
        Value::Bool(b) => Json::Bool(*b),
        Value::Number(n) => Json::Number(match (n.as_u64(), n.as_i64()) {
            (Some(u), _) => JsonNumber::PosInt(u),
            (None, Some(i)) => JsonNumber::NegInt(i),
            (None, None) => JsonNumber::Float(n.to_string()),
        }),
        Value::String(s) => Json::Str(s.clone()),
        Value::Array(a) => Json::Array(a.iter().map(json_of_value).collect()),
        Value::Object(m) => Json::Object(m.iter().map(|(k, x)| JsonMember { key: k.clone(), value: json_of_value(x) }).collect()),
    }
}

/// A `Json` as a `serde_json::Value`, variant for variant; a float is read
/// back from its text (a text that is no JSON number, which no document read
/// by `parse_json` holds, gives `null`), and a later member replaces an
/// earlier one with the same key.
#[verifier::external_body]
fn value_of_json(j: &Json) -> Value {
    match j {
        Json::Null => Value::Null,
        Json::Bool(b) => Value::Bool(*b),
        Json::Number(JsonNumber::PosInt(u)) => Value::from(*u),
        Json::Number(JsonNumber::NegInt(i)) => Value::from(*i),
        Json::Number(JsonNumber::Float(t)) => t.parse::<Number>().map_or(Value::Null, Value::Number),
        Json::Str(s) => Value::String(s.clone()),
        Json::Array(a) => Value::Array(a.iter().map(value_of_json).collect()),
        Json::Object(m) => Value::Object(m.iter().map(|x| (x.key.clone(), value_of_json(&x.value))).collect()),
    }
}

/// Reads JSON text with `serde_json::from_str::<serde_json::Value>`.
///
/// Claimed of serde_json: the document read depends on the text alone, and an
/// object it reads has distinct keys (its map keeps one value per key). Which
/// texts it accepts, and the message of its error, are not stated.
#[verifier::external_body]
pub fn parse_json(text: &str) -> (r: Result<Json, String>)
    ensures
        r is Err <==> parsed_json(text@) is None,
        r matches Ok(j) ==> Some(j@) == parsed_json(text@) && wf_if_object(j),
{
    match serde_json::from_str::<serde_json::Value>(text) {
        Ok(v) => Ok(json_of_value(&v)),
        Err(e) => Err(e.to_string()),
    }
}

/// Writes a document with `serde_json::to_string`.
///
/// Claimed of serde_json: the text depends on the document's meaning alone
/// (its map writes keys in sorted order, one value per key). Writing a
/// `serde_json::Value` cannot fail; the text itself is not stated.
#[verifier::external_body]
pub fn to_json_text(j: &Json) -> (r: String)
    ensures
        r@ == json_text(j@),
{
    match serde_json::to_string(&value_of_json(j)) {
        Ok(t) => t,
        Err(_) => String::new(),
    }
}

/// Writes a document with `serde_json::to_string_pretty`.
///
/// Claimed of serde_json: as for `to_json_text`, the text depends on the
/// document's meaning alone; the text itself is not stated.
#[verifier::external_body]
pub fn to_json_pretty_text(j: &Json) -> (r: String)
    ensures
        r@ == json_pretty_text(j@),
{
    match serde_json::to_string_pretty(&value_of_json(j)) {
        Ok(t) => t,
        Err(_) => String::new(),
    }
}

/// The document stored as `raw`; text that is not JSON reads as `null`.
pub fn json_or_null(raw: &str) -> (r: Json)
    ensures
        r@ == match parsed_json(raw@) {
            Some(v) => v,
            None => JsonView::Null,
        },
{
    match parse_json(raw) {
        Ok(j) => j,
        Err(_) => Json::Null,
    }
}

} // verus!
