//! Why a text was not decoded.

use vstd::prelude::*;
use vstd::string::StringExecFns;

verus! {

/// A field of the message object.
#[derive(Clone, Copy, Debug, PartialEq, Eq, Structural)]
pub enum Field {
    Jsonrpc,
    Id,
    Method,
    Params,
}

impl Field {
    /// The field's key in the message object.
    pub open spec fn name(self) -> Seq<char> {
        match self {
            Field::Jsonrpc => "jsonrpc"@,
            Field::Id => "id"@,
            Field::Method => "method"@,
            Field::Params => "params"@,
        }
    }

    /// The field's key in the message object.
    pub fn as_str(self) -> (key: &'static str)
        ensures
            key@ == self.name(),
    {
        match self {
            Field::Jsonrpc => "jsonrpc",
            Field::Id => "id",
            Field::Method => "method",
            Field::Params => "params",
        }
    }
}

/// The keys of the four fields differ from one another.
pub proof fn lemma_field_names_differ()
    ensures
        forall|a: Field, b: Field| a != b ==> #[trigger] a.name() != #[trigger] b.name(),
{
    reveal_strlit("jsonrpc");
    reveal_strlit("id");
    reveal_strlit("method");
    reveal_strlit("params");
    assert("jsonrpc"@.len() == 7);
    assert("id"@.len() == 2);
    assert("method"@.len() == 6);
    assert("params"@.len() == 6);
    assert("method"@[0] == 'm');
    assert("params"@[0] == 'p');
}

/// A JSON value that is not a message.
#[derive(Clone, Copy, Debug, PartialEq, Eq, Structural)]
pub enum ShapeError {
    /// The value is not a JSON object.
    NotAnObject,
    /// The object has no member with the field's key.
    MissingField(Field),
    /// The member `jsonrpc`, `id` or `method` is not a JSON string.
    NotAString(Field),
    /// The member `params` is not a JSON string, array or object.
    InvalidParams,
}

impl ShapeError {
    /// The diagnostic for this error.
    pub open spec fn message_text(self) -> Seq<char> {
        match self {
            ShapeError::NotAnObject => "invalid type: expected a message object"@,
            ShapeError::MissingField(field) => "missing field `"@ + field.name() + "`"@,
            ShapeError::NotAString(field) => "invalid type for field `"@ + field.name()
                + "`: expected a string"@,
            ShapeError::InvalidParams =>
                "invalid type for field `params`: expected a string, an array or an object"@,
        }
    }

    /// The diagnostic for this error.
    pub fn message(self) -> (text: String)
        ensures
            text@ == self.message_text(),
    {
        match self {
            ShapeError::NotAnObject => String::from_str("invalid type: expected a message object"),
            ShapeError::MissingField(field) => {
                let mut text = String::from_str("missing field `");
                text.append(field.as_str());
                text.append("`");
                text
            },
            ShapeError::NotAString(field) => {
                let mut text = String::from_str("invalid type for field `");
                text.append(field.as_str());
                text.append("`: expected a string");
                text
            },
            ShapeError::InvalidParams => String::from_str(
                "invalid type for field `params`: expected a string, an array or an object",
            ),
        }
    }
}

/// Why a text was not decoded.
#[derive(Clone, Debug, PartialEq, Eq)]
pub enum DecodeError {
    /// The text is not JSON. Holds the parser's diagnostic.
    Syntax(String),
    /// The text is JSON, but not a message.
    Shape(ShapeError),
}

impl DecodeError {
    /// The diagnostic that this error carries.
    pub open spec fn message_text(self) -> Seq<char> {
        match self {
            DecodeError::Syntax(diagnostic) => diagnostic@,
            DecodeError::Shape(shape) => shape.message_text(),
        }
    }

    /// The diagnostic that this error carries.
    pub fn message(&self) -> (text: String)
        ensures
            text@ == self.message_text(),
    {
        match self {
            DecodeError::Syntax(diagnostic) => diagnostic.clone(),
            DecodeError::Shape(shape) => shape.message(),
        }
    }
}

} // verus!
