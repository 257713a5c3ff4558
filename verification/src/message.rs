//! The request message: its data, how it is decoded from JSON, how a
//! parameter is added, and how the parameters become call arguments.

use vstd::prelude::*;
use vstd::string::StringExecFns;
use crate::dynamic::{
    convert_list, convert_list_model, convert_members, convert_members_model, convert_model,
    dict_model, list_model, DynamicModel, DynamicValue,
};
use crate::error::{lemma_field_names_differ, DecodeError, Field, ShapeError};
use crate::json::{
    lemma_members_model, lemma_members_model_insert, members_model, values_model, JsonModel,
    JsonValue,
};
use crate::parse::json_text_value;
use crate::strmap::{entries_get, entries_insert, lemma_remove, StrMap};

verus! {

/// The parameters of a message, in one of three shapes.
#[derive(Debug)]
pub enum Params {
    /// One scalar parameter: a single positional argument.
    String(String),
    /// Positional arguments, in order.
    Array(Vec<JsonValue>),
    /// Keyword arguments, by name.
    Object(StrMap<JsonValue>),
}

/// What the parameters of a message mean.
pub enum ParamsModel {
    String(Seq<char>),
    Array(Seq<JsonModel>),
    Object(Seq<(Seq<char>, JsonModel)>),
}

impl Params {
    pub open spec fn view(&self) -> ParamsModel {
        match self {
            Params::String(s) => ParamsModel::String(s@),
            Params::Array(items) => ParamsModel::Array(values_model(items@)),
            Params::Object(members) => ParamsModel::Object(members_model(members.entries())),
        }
    }
}

impl ParamsModel {
    /// The parameters after one more is set. Keyword parameters get `name`
    /// set to `value`. Positional parameters get `value` at the end, and
    /// `name` is left out. A scalar parameter becomes the first of two
    /// positional parameters, with `value` the second.
    pub open spec fn with_param(self, name: Seq<char>, value: JsonModel) -> ParamsModel {
        match self {
            ParamsModel::Object(members) => ParamsModel::Object(
                entries_insert(members, name, value),
            ),
            ParamsModel::Array(items) => ParamsModel::Array(items.push(value)),
            ParamsModel::String(s) => ParamsModel::Array(seq![JsonModel::String(s), value]),
        }
    }

    /// The positional arguments that the parameters give.
    pub open spec fn positional(self) -> Seq<DynamicModel> {
        match self {
            ParamsModel::String(s) => seq![convert_model(JsonModel::String(s))],
            ParamsModel::Array(items) => convert_list_model(items),
            ParamsModel::Object(_) => Seq::empty(),
        }
    }

    /// The keyword arguments that the parameters give.
    pub open spec fn keyword(self) -> Seq<(Seq<char>, DynamicModel)> {
        match self {
            ParamsModel::String(_) => Seq::empty(),
            ParamsModel::Array(_) => Seq::empty(),
            ParamsModel::Object(members) => convert_members_model(members),
        }
    }
}

impl Params {
    /// The parameters after one more is set, as `ParamsModel::with_param`
    /// says.
    pub fn with_param(self, name: String, value: JsonValue) -> (params: Params)
        ensures
            params@ == self@.with_param(name@, value@),
    {
        match self {
            Params::Object(members) => {
                let mut members = members;
                let ghost before = members.entries();
                let ghost key = name@;
                let ghost added = value;
                members.insert(name, value);
                proof {
                    lemma_members_model_insert(before, key, added);
                }
                Params::Object(members)
            },
            Params::Array(items) => {
                let mut items = items;
                items.push(value);
                assert(values_model(items@) =~= self@->Array_0.push(value@));
                Params::Array(items)
            },
            Params::String(s) => {
                let mut items: Vec<JsonValue> = Vec::new();
                items.push(JsonValue::String(s));
                items.push(value);
                assert(values_model(items@) =~= seq![JsonModel::String(s@), value@]);
                Params::Array(items)
            },
        }
    }
}

/// A request message.
#[derive(Debug)]
pub struct Message {
    jsonrpc: String,
    id: String,
    method: String,
    params: Params,
}

/// What a message means.
pub struct MessageModel {
    pub jsonrpc: Seq<char>,
    pub id: Seq<char>,
    pub method: Seq<char>,
    pub params: ParamsModel,
}

/// The member of `members` for a field that holds a string.
pub open spec fn string_member(members: Seq<(Seq<char>, JsonModel)>, field: Field) -> Result<
    Seq<char>,
    ShapeError,
> {
    match entries_get(members, field.name()) {
        None => Err(ShapeError::MissingField(field)),
        Some(JsonModel::String(s)) => Ok(s),
        Some(_) => Err(ShapeError::NotAString(field)),
    }
}

/// The member `params` of `members`, in the shape that it has.
pub open spec fn params_member(members: Seq<(Seq<char>, JsonModel)>) -> Result<
    ParamsModel,
    ShapeError,
> {
    match entries_get(members, Field::Params.name()) {
        None => Err(ShapeError::MissingField(Field::Params)),
        Some(JsonModel::String(s)) => Ok(ParamsModel::String(s)),
        Some(JsonModel::Array(items)) => Ok(ParamsModel::Array(items)),
        Some(JsonModel::Object(members)) => Ok(ParamsModel::Object(members)),
        Some(_) => Err(ShapeError::InvalidParams),
    }
}

impl MessageModel {
    /// The message after one more parameter is set.
    pub open spec fn with_param(self, name: Seq<char>, value: JsonModel) -> MessageModel {
        MessageModel { params: self.params.with_param(name, value), ..self }
    }
}

/// The message that a JSON value holds. The value must be an object with the
/// string members `jsonrpc`, `id` and `method` and a member `params` that is
/// a string, an array or an object. Other members are passed over. Where
/// several members are at fault, the error is that of the first among
/// `jsonrpc`, `id`, `method`, `params`.
pub open spec fn message_of(value: JsonModel) -> Result<MessageModel, ShapeError> {
    match value {
        JsonModel::Object(members) => match string_member(members, Field::Jsonrpc) {
            Err(error) => Err(error),
            Ok(jsonrpc) => match string_member(members, Field::Id) {
                Err(error) => Err(error),
                Ok(id) => match string_member(members, Field::Method) {
                    Err(error) => Err(error),
                    Ok(method) => match params_member(members) {
                        Err(error) => Err(error),
                        Ok(params) => Ok(MessageModel { jsonrpc, id, method, params }),
                    },
                },
            },
        },
        _ => Err(ShapeError::NotAnObject),
    }
}

/// Takes the member for `field` out of `members` and returns the string that
/// it holds. The other members stay.
fn take_string(members: &mut StrMap<JsonValue>, field: Field) -> (outcome: Result<
    String,
    ShapeError,
>)
    ensures
        match string_member(members_model(old(members).entries()), field) {
            Ok(s) => outcome matches Ok(text) && text@ == s,
            Err(error) => outcome matches Err(e) && e == error,
        },
        forall|other: Seq<char>|
            other != field.name() ==> #[trigger] entries_get(
                members_model(final(members).entries()),
                other,
            ) == entries_get(members_model(old(members).entries()), other),
{
    let ghost before = members.entries();
    let taken = members.remove(field.as_str());
    proof {
        lemma_remove(before, field.name());
        lemma_members_model(before);
        lemma_members_model(members.entries());
    }
    match taken {
        None => Err(ShapeError::MissingField(field)),
        Some(JsonValue::String(text)) => Ok(text),
        Some(_) => Err(ShapeError::NotAString(field)),
    }
}

/// Takes the member `params` out of `members` and returns the parameters
/// that it holds.
fn take_params(members: &mut StrMap<JsonValue>) -> (outcome: Result<Params, ShapeError>)
    ensures
        match params_member(members_model(old(members).entries())) {
            Ok(model) => outcome matches Ok(params) && params@ == model,
            Err(error) => outcome matches Err(e) && e == error,
        },
{
    let ghost before = members.entries();
    let taken = members.remove(Field::Params.as_str());
    proof {
        lemma_members_model(before);
    }
    match taken {
        None => Err(ShapeError::MissingField(Field::Params)),
        Some(JsonValue::String(text)) => Ok(Params::String(text)),
        Some(JsonValue::Array(items)) => {
            proof {
                JsonValue::lemma_array_view(items);
            }
            Ok(Params::Array(items))
        },
        Some(JsonValue::Object(inner)) => {
            proof {
                JsonValue::lemma_object_view(inner);
            }
            Ok(Params::Object(inner))
        },
        Some(_) => Err(ShapeError::InvalidParams),
    }
}

impl Message {
    pub closed spec fn view(&self) -> MessageModel {
        MessageModel {
            jsonrpc: self.jsonrpc@,
            id: self.id@,
            method: self.method@,
            params: self.params@,
        }
    }

    /// A message with the identifier `id`, the protocol version `2.0`, the
    /// method name `method` and no parameters: keyword parameters if
    /// `keyword` is true, positional ones if not.
    pub fn new(id: String, keyword: bool) -> (message: Message)
        ensures
            message@ == (MessageModel {
                jsonrpc: "2.0"@,
                id: id@,
                method: "method"@,
                params: if keyword {
                    ParamsModel::Object(Seq::empty())
                } else {
                    ParamsModel::Array(Seq::empty())
                },
            }),
    {
        let params = if keyword {
            let members: StrMap<JsonValue> = StrMap::new();
            assert(members_model(members.entries()) =~= Seq::empty());
            Params::Object(members)
        } else {
            let items: Vec<JsonValue> = Vec::new();
            assert(values_model(items@) =~= Seq::empty());
            Params::Array(items)
        };
        Message {
            jsonrpc: String::from_str("2.0"),
            id,
            method: String::from_str("method"),
            params,
        }
    }

    /// A message made of its four parts.
    pub fn from_parts(jsonrpc: String, id: String, method: String, params: Params) -> (message:
        Message)
        ensures
            message@ == (MessageModel {
                jsonrpc: jsonrpc@,
                id: id@,
                method: method@,
                params: params@,
            }),
    {
        Message { jsonrpc, id, method, params }
    }

    /// The message that a JSON value holds, as `message_of` says.
    pub fn from_json(value: JsonValue) -> (outcome: Result<Message, ShapeError>)
        ensures
            match message_of(value@) {
                Ok(model) => outcome matches Ok(message) && message@ == model,
                Err(error) => outcome matches Err(e) && e == error,
            },
    {
        match value {
            JsonValue::Object(members) => {
                proof {
                    JsonValue::lemma_object_view(members);
                    lemma_field_names_differ();
                }
                let mut members = members;
                let jsonrpc = match take_string(&mut members, Field::Jsonrpc) {
                    Ok(text) => text,
                    Err(error) => {
                        return Err(error);
                    },
                };
                let id = match take_string(&mut members, Field::Id) {
                    Ok(text) => text,
                    Err(error) => {
                        return Err(error);
                    },
                };
                let method = match take_string(&mut members, Field::Method) {
                    Ok(text) => text,
                    Err(error) => {
                        return Err(error);
                    },
                };
                let params = match take_params(&mut members) {
                    Ok(params) => params,
                    Err(error) => {
                        return Err(error);
                    },
                };
                Ok(Message { jsonrpc, id, method, params })
            },
            _ => Err(ShapeError::NotAnObject),
        }
    }

    /// Sets one more parameter, as `ParamsModel::with_param` says. The rest
    /// of the message stays.
    pub fn add_param(&mut self, name: String, value: JsonValue)
        ensures
            final(self)@ == old(self)@.with_param(name@, value@),
    {
        let mut params = Params::Array(Vec::new());
        core::mem::swap(&mut self.params, &mut params);
        self.params = params.with_param(name, value);
    }

    /// Reads `raw` as one JSON value and sets it as one more parameter. Where
    /// `raw` is not JSON, the message stays as it was.
    pub fn set_param(&mut self, name: String, raw: &str) -> (outcome: Result<(), DecodeError>)
        ensures
            match json_text_value(raw@) {
                Ok(value) => outcome is Ok && final(self)@ == old(self)@.with_param(name@, value),
                Err(shown) => outcome matches Err(DecodeError::Syntax(text)) && text@ == shown
                    && final(self)@ == old(self)@,
            },
    {
        match JsonValue::parse(raw) {
            Ok(value) => {
                self.add_param(name, value);
                Ok(())
            },
            Err(error) => Err(error),
        }
    }

    /// The call arguments that the parameters give: the positional ones and
    /// the keyword ones. A scalar parameter is one positional argument,
    /// positional parameters are converted in order, keyword parameters are
    /// converted under their names; the other of the two is empty.
    pub fn materialize_params(&self) -> (arguments: (Vec<DynamicValue>, StrMap<DynamicValue>))
        ensures
            list_model(arguments.0@) == self@.params.positional(),
            dict_model(arguments.1.entries()) == self@.params.keyword(),
            arguments.0@.len() == self@.params.positional().len(),
            arguments.1.entries().len() == self@.params.keyword().len(),
    {
        match &self.params {
            Params::String(s) => {
                let mut positional: Vec<DynamicValue> = Vec::new();
                positional.push(DynamicValue::String(s.clone()));
                let keyword: StrMap<DynamicValue> = StrMap::new();
                assert(list_model(positional@) =~= self@.params.positional());
                assert(dict_model(keyword.entries()) =~= self@.params.keyword());
                (positional, keyword)
            },
            Params::Array(items) => {
                let positional = convert_list(items);
                let keyword: StrMap<DynamicValue> = StrMap::new();
                assert(dict_model(keyword.entries()) =~= self@.params.keyword());
                assert(list_model(positional@).len() == positional@.len());
                (positional, keyword)
            },
            Params::Object(members) => {
                let positional: Vec<DynamicValue> = Vec::new();
                let keyword = convert_members(members);
                assert(list_model(positional@) =~= self@.params.positional());
                assert(dict_model(keyword.entries()).len() == keyword.entries().len());
                (positional, keyword)
            },
        }
    }

    /// The protocol version.
    pub fn jsonrpc(&self) -> (text: &String)
        ensures
            text@ == self@.jsonrpc,
    {
        &self.jsonrpc
    }

    /// The identifier.
    pub fn id(&self) -> (text: &String)
        ensures
            text@ == self@.id,
    {
        &self.id
    }

    /// The method name.
    pub fn method(&self) -> (text: &String)
        ensures
            text@ == self@.method,
    {
        &self.method
    }

    /// The parameters.
    pub fn params(&self) -> (params: &Params)
        ensures
            params@ == self@.params,
    {
        &self.params
    }
}

/// Decodes a message from JSON text. The text must be one JSON value, and
/// that value a message as `message_of` says; nothing is decoded in part.
pub fn decode(text: &str) -> (outcome: Result<Message, DecodeError>)
    ensures
        match json_text_value(text@) {
            Err(shown) => outcome matches Err(DecodeError::Syntax(diagnostic)) && diagnostic@
                == shown,
            Ok(value) => match message_of(value) {
                Ok(model) => outcome matches Ok(message) && message@ == model,
                Err(shape) => outcome matches Err(DecodeError::Shape(e)) && e == shape,
            },
        },
{
    match JsonValue::parse(text) {
        Err(error) => Err(error),
        Ok(value) => match Message::from_json(value) {
            Ok(message) => Ok(message),
            Err(shape) => Err(DecodeError::Shape(shape)),
        },
    }
}

} // verus!
