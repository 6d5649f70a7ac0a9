//! Reading JSON text. The parsing itself is `serde_json`'s; this module
//! carries what it reads over into [`Json`].

use crate::json::{Json, JsonNumber, JsonView};
use vstd::prelude::*;

verus! {

/// Declares `serde_json::Value`, so that one can be handed from the reader to
/// the conversion. Nothing is known of what is inside.
#[verifier::external_type_specification]
#[verifier::external_body]
pub struct ExValue(serde_json::Value);

/// The value that `serde_json::from_str` reads from `text` as a
/// `serde_json::Value`, or `None` where it reports an error.
pub uninterp spec fn json_parse(text: Seq<char>) -> Option<JsonView>;

/// What a `serde_json::Value` holds: null, a boolean, a number, a string, the
/// elements of an array, or the fields of an object in the order the value
/// hands them out.
pub uninterp spec fn value_model(value: serde_json::Value) -> JsonView;

/// Calls `serde_json::from_str::<serde_json::Value>`. The contract claims only
/// that the outcome is a function of the text: a value is returned exactly
/// where [`json_parse`] is `Some`, and it holds what [`json_parse`] names.
/// Nothing is claimed of the message that comes with a failure.
#[verifier::external_body]
fn read_value(text: &str) -> (r: Result<serde_json::Value, String>)
    ensures
        match r {
            Ok(value) => json_parse(text@) == Some(value_model(value)),
            Err(_) => json_parse(text@) is None,
        },
{
    serde_json::from_str::<serde_json::Value>(text).map_err(|e| e.to_string())
}

/// Takes a `serde_json::Value` apart, one arm for each of its variants, and
/// moves what it holds into a [`Json`]. A number is told apart with
/// `Number::as_u64` and `Number::as_i64`; one that is neither is kept as the
/// text `Number::to_string` gives. The contract claims that the result holds
/// what [`value_model`] names.
#[verifier::external_body]
fn json_of_value(value: serde_json::Value) -> (r: Json)
    ensures
        r@ == value_model(value),
{
    match value {
        serde_json::Value::Null => Json::Null,
        serde_json::Value::Bool(b) => Json::Bool(b),
        serde_json::Value::Number(n) => Json::Number(match (n.as_u64(), n.as_i64()) {
            (Some(u), _) => JsonNumber::Unsigned(u),
            (None, Some(i)) => JsonNumber::Negative(i),
            (None, None) => JsonNumber::Fraction(n.to_string()),
        }),
        serde_json::Value::String(s) => Json::Text(s),
        serde_json::Value::Array(a) => Json::Array(a.into_iter().map(json_of_value).collect()),
        serde_json::Value::Object(o) => Json::Object(
            o.into_iter().map(|(k, v)| (k, json_of_value(v))).collect()),
    }
}

/// Why a text could not be read as JSON.
#[derive(Clone, Debug, PartialEq, Eq)]
pub struct ParseError {
    pub detail: String,
}

/// Reads `text` as one JSON value.
pub fn parse(text: &str) -> (r: Result<Json, ParseError>)
    ensures
        match r {
            Ok(json) => json_parse(text@) == Some(json@),
            Err(_) => json_parse(text@) is None,
        },
{
    match read_value(text) {
        Ok(value) => Ok(json_of_value(value)),
        Err(detail) => Err(ParseError { detail }),
    }
}

} // verus!
