//! The boundary between [`Json`] values and their wire text.
//!
//! Encoding and decoding of the text itself is serde_json's work, reached
//! through the trusted items below.  Each boundary function's result depends
//! on its argument alone, so it is given a name ([`encode_of`],
//! [`pretty_encode_of`], [`decode_of`]) that the rest of the crate's
//! contracts speak of exactly.  Nothing is assumed beyond determinism: in
//! particular, no round trip between the names is taken on trust (serde_json
//! re-sorts object members and collapses duplicate keys, so such a law would
//! need care that nothing here requires).

use vstd::prelude::*;
use crate::json::{opt_json_view, Json, JsonV};
use serde_json::Value;

verus! {

#[verifier::external_type_specification]
#[verifier::external_body]
pub struct ExValue(Value);

#[verifier::external_type_specification]
#[verifier::external_body]
pub struct ExNumber(serde_json::Number);

/// The compact document text of a value, as serde_json::to_string writes it.
pub uninterp spec fn encode_of(v: JsonV) -> Seq<char>;

/// The pretty-printed document text of a value, as
/// serde_json::to_string_pretty writes it.
pub uninterp spec fn pretty_encode_of(v: JsonV) -> Seq<char>;

/// What document text means as a value, as serde_json::from_str reads it:
/// `None` exactly on text that is not one well-formed document.
pub uninterp spec fn decode_of(s: Seq<char>) -> Option<JsonV>;

/// Relies on serde_json::Value's constructors and serde_json::Number's
/// `FromStr`: one arm per variant of this crate's value model, moving
/// fields.  A `Num` numeral that is not a number (constructible, never
/// produced by decoding) is carried as null.
#[verifier::external_body]
fn value_of_json(j: &Json) -> Value {
    match j {
        Json::Null => Value::Null,
        Json::Bool(b) => Value::Bool(*b),
        Json::Int(i) => Value::from(*i),
        Json::UInt(u) => Value::from(*u),
        Json::Num(t) => t.parse::<serde_json::Number>().map_or(Value::Null, Value::Number),
        Json::Str(s) => Value::String(s.clone()),
        Json::Arr(a) => Value::Array(a.iter().map(value_of_json).collect()),
        Json::Obj(o) => Value::Object(o.iter().map(|p| (p.0.clone(), value_of_json(&p.1))).collect()),
    }
}

/// Relies on serde_json::Number's accessors: an integer number maps to the
/// matching integer variant, any other to its numeral text, untouched.
#[verifier::external_body]
fn json_of_number(n: &serde_json::Number) -> Json {
    if let Some(i) = n.as_i64() {
        Json::Int(i)
    } else if let Some(u) = n.as_u64() {
        Json::UInt(u)
    } else {
        Json::Num(n.to_string())
    }
}

/// Relies on serde_json::Value's accessors: each variant maps back to this
/// crate's model, one for one.
#[verifier::external_body]
fn json_of_value(v: &Value) -> Json {
    match v {
        Value::Null => Json::Null,
        Value::Bool(b) => Json::Bool(*b),
        Value::Number(n) => json_of_number(n),
        Value::String(s) => Json::Str(s.clone()),
        Value::Array(a) => Json::Arr(a.iter().map(json_of_value).collect()),
        Value::Object(o) => Json::Obj(o.iter().map(|e| (e.0.clone(), json_of_value(e.1))).collect()),
    }
}

/// Relies on serde_json::to_string: the compact encoding of a value, a
/// function of the document alone.  Serializing a serde_json::Value does not
/// fail (its map keys are strings), so the default arm is dead.
#[verifier::external_body]
pub fn json_to_text(j: &Json) -> (r: String)
    ensures
        r@ == encode_of(j@),
{
    serde_json::to_string(&value_of_json(j)).unwrap_or_default()
}

/// Relies on serde_json::to_string_pretty: the pretty-printed encoding of a
/// value, a function of the document alone.  Serializing a
/// serde_json::Value does not fail, so the default arm is dead.
#[verifier::external_body]
pub fn json_to_pretty_text(j: &Json) -> (r: String)
    ensures
        r@ == pretty_encode_of(j@),
{
    serde_json::to_string_pretty(&value_of_json(j)).unwrap_or_default()
}

/// Relies on serde_json::from_str: `Some` exactly on well-formed document
/// text, `None` on anything else; a function of the text alone.
#[verifier::external_body]
pub fn text_to_json(s: &str) -> (r: Option<Json>)
    ensures
        opt_json_view(r) == decode_of(s@),
{
    serde_json::from_str::<Value>(s).ok().map(|v| json_of_value(&v))
}

} // verus!
