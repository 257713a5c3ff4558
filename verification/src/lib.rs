//! Decoding of JSON-RPC style request messages into call arguments.
//!
//! A message has a protocol version, an identifier, a method name and
//! parameters. The parameters are a scalar string, a list of positional
//! values or a map of keyword values; `materialize_params` turns them into
//! the positional and keyword arguments of a call in a dynamic language.
//!
//! - `json`: JSON values and their mathematical model.
//! - `parse`: reading JSON text, through `serde_json`.
//! - `dynamic`: dynamic values, and the conversion of JSON values to them.
//! - `message`: the message, its decoding and its parameters.
//! - `render`: text of values and messages, for people.
//! - `error`: why a text was not decoded.
//! - `strmap`: the ordered map from strings that objects are kept in.
//! - `text`: decimal digits and quoting.
//! - `laws`: what holds of the library as a whole.

pub mod dynamic;
pub mod error;
pub mod json;
pub mod laws;
pub mod message;
pub mod parse;
pub mod render;
pub mod strmap;
pub mod text;

pub use dynamic::{convert, DynamicValue};
pub use error::{DecodeError, Field, ShapeError};
pub use json::{JsonNumber, JsonValue};
pub use message::{decode, Message, Params};
pub use strmap::StrMap;
