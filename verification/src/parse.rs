//! Reading JSON text. The reading itself is done by `serde_json`; what this
//! module states of it is taken on trust, and is all that the rest of the
//! library knows of the parser.

use vstd::prelude::*;
use serde_json::Value;
use crate::error::DecodeError;
use crate::json::{JsonModel, JsonNumber, JsonValue};
use crate::strmap::StrMap;

verus! {

/// `serde_json::Value`, carried from the parser to `lift_tree` unread.
#[verifier::external_type_specification]
#[verifier::external_body]
pub struct ExValue(serde_json::Value);

/// `serde_json::Error`, carried from the parser to `diagnostic` unread.
#[verifier::external_type_specification]
#[verifier::external_body]
pub struct ExError(serde_json::Error);

/// What `serde_json::from_str` makes of `text`: the value that it reads, or
/// the diagnostic of the error that it reports.
pub uninterp spec fn json_text_value(text: Seq<char>) -> Result<JsonModel, Seq<char>>;

/// The JSON value that a `serde_json::Value` holds.
pub uninterp spec fn tree_model(tree: serde_json::Value) -> JsonModel;

/// The diagnostic that a `serde_json::Error` shows.
pub uninterp spec fn error_text(error: serde_json::Error) -> Seq<char>;

/// Calls `serde_json::from_str` for a `serde_json::Value`. The parser makes
/// the same of the same text every time, so the outcome has a name.
#[verifier::external_body]
fn read_tree(text: &str) -> (outcome: Result<Value, serde_json::Error>)
    ensures
        match outcome {
            Ok(tree) => json_text_value(text@) == Ok::<JsonModel, Seq<char>>(tree_model(tree)),
            Err(error) => json_text_value(text@) == Err::<JsonModel, Seq<char>>(
                error_text(error),
            ),
        },
{
    serde_json::from_str::<Value>(text)
}

/// Moves what a `serde_json::Value` holds into a `JsonValue`, variant by
/// variant. A number goes by `Number::as_u64`, then `Number::as_i64`, and
/// else by its text. The members of an object come out of a
/// `serde_json::Map`, which holds each key once, so they make a `StrMap`.
#[verifier::external_body]
fn lift_tree(tree: Value) -> (value: JsonValue)
    ensures
        value@ == tree_model(tree),
{
    match tree {
        Value::Null => JsonValue::Null,
        Value::Bool(b) => JsonValue::Bool(b),
        Value::String(s) => JsonValue::String(s),
        Value::Array(a) => JsonValue::Array(a.into_iter().map(lift_tree).collect()),
        Value::Object(o) => JsonValue::Object(
            StrMap { entries: o.into_iter().map(|(k, v)| (k, lift_tree(v))).collect() },
        ),
        Value::Number(n) => JsonValue::Number(match (n.as_u64(), n.as_i64()) {
            (Some(u), _) => JsonNumber::PosInt(u),
            (_, Some(i)) => JsonNumber::NegInt(i),
            _ => JsonNumber::Float(n.to_string()),
        }),
    }
}

/// The text of a `serde_json::Error`, by its `Display`.
#[verifier::external_body]
fn diagnostic(error: &serde_json::Error) -> (text: String)
    ensures
        text@ == error_text(*error),
{
    error.to_string()
}

impl JsonValue {
    /// Reads one JSON value from `text`. Where the text is not JSON, the
    /// error holds the parser's diagnostic.
    pub fn parse(text: &str) -> (outcome: Result<JsonValue, DecodeError>)
        ensures
            match outcome {
                Ok(value) => json_text_value(text@) == Ok::<JsonModel, Seq<char>>(value@),
                Err(error) => error matches DecodeError::Syntax(shown) && json_text_value(text@)
                    == Err::<JsonModel, Seq<char>>(shown@),
            },
    {
        match read_tree(text) {
            Ok(tree) => Ok(lift_tree(tree)),
            Err(error) => Err(DecodeError::Syntax(diagnostic(&error))),
        }
    }
}

} // verus!
