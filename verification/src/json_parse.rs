//! JSON values read from bytes.

use crate::json::{Json, JsonView, Number};
use vstd::prelude::*;

verus! {

/// A value of the JSON parser, which is carried to its conversion as it is.
#[verifier::external_type_specification]
#[verifier::external_body]
pub struct ExValue(serde_json::Value);

/// The value that some bytes are the JSON text of, or why they are none, as
/// serde_json tells it.
pub uninterp spec fn parsed(bytes: Seq<u8>) -> Result<JsonView, Seq<char>>;

/// What the outcome of reading a value holds.
pub open spec fn outcome(r: Result<Json, String>) -> Result<JsonView, Seq<char>> {
    match r {
        Ok(j) => Ok(j@),
        Err(reason) => Err(reason@),
    }
}

/// A `serde_json::Value` as a value of the library, variant by variant. A
/// number that is no integer of 64 bits becomes the text that `Display` writes
/// for it. Nothing is claimed of the result here, since the argument is opaque.
#[verifier::external_body]
fn from_value(v: serde_json::Value) -> (r: Json) {
    match v {
        serde_json::Value::Null => Json::Null,
        serde_json::Value::Bool(b) => Json::Bool(b),
        serde_json::Value::Number(n) => Json::Num(match (n.as_u64(), n.as_i64()) {
            (Some(u), _) => Number::Unsigned(u),
            (None, Some(i)) => Number::Negative(i),
            (None, None) => Number::Float(n.to_string()),
        }),
        serde_json::Value::String(s) => Json::Str(s),
        serde_json::Value::Array(items) => Json::Arr(items.into_iter().map(from_value).collect()),
        serde_json::Value::Object(members) => {
            Json::Obj(members.into_iter().map(|(k, v)| (k, from_value(v))).collect())
        }
    }
}

/// `serde_json::from_slice`: reads the JSON text in some bytes, and tells the
/// reason where they hold none.
#[verifier::external_body]
pub(crate) fn parse(bytes: &[u8]) -> (r: Result<Json, String>)
    ensures
        outcome(r) == parsed(bytes@),
{
    serde_json::from_slice::<serde_json::Value>(bytes).map(from_value).map_err(|e| e.to_string())
}

} // verus!
