//! What holds of the library as a whole, proved from the contracts of its
//! functions.

use vstd::prelude::*;
use crate::dynamic::{
    conversion, convert_list_model, convert_members_model, convert_model, convert_number_model,
    fits_native, DynamicModel,
};
use crate::error::Field;
use crate::json::{JsonModel, JsonNumber, NumberModel};
use crate::message::{message_of, ParamsModel};
use crate::strmap::{distinct_keys, entries_get, entries_map, lemma_insert, lemma_map_values};

verus! {

/// A message whose `params` is a JSON object gives no positional argument,
/// and as keyword arguments the members of that object, each converted,
/// under its key and in its place.
pub proof fn object_params_give_keyword_arguments(
    value: JsonModel,
    members: Seq<(Seq<char>, JsonModel)>,
)
    requires
        message_of(value) is Ok,
        value matches JsonModel::Object(whole) && entries_get(whole, Field::Params.name()) == Some(
            JsonModel::Object(members),
        ),
    ensures
        message_of(value)->Ok_0.params.positional() == Seq::<DynamicModel>::empty(),
        message_of(value)->Ok_0.params.keyword() == convert_members_model(members),
        message_of(value)->Ok_0.params.keyword().len() == members.len(),
        forall|i: int|
            0 <= i < members.len() ==> #[trigger] message_of(value)->Ok_0.params.keyword()[i] == (
                members[i].0,
                convert_model(members[i].1),
            ),
{
}

/// With distinct keys, the keyword arguments of an object hold under each
/// key the converted value that the object holds under it, and no other key.
pub proof fn keyword_arguments_are_the_converted_mapping(members: Seq<(Seq<char>, JsonModel)>)
    requires
        distinct_keys(members),
    ensures
        distinct_keys(ParamsModel::Object(members).keyword()),
        entries_map(ParamsModel::Object(members).keyword()).dom() == entries_map(members).dom(),
        forall|key: Seq<char>| #[trigger]
            entries_get(ParamsModel::Object(members).keyword(), key) == match entries_get(
                members,
                key,
            ) {
                Some(value) => Some(convert_model(value)),
                None => None,
            },
{
    lemma_map_values(members, conversion());
    assert(entries_map(convert_members_model(members)).dom() =~= entries_map(members).dom());
}

/// A message whose `params` is a JSON array gives no keyword argument, and
/// as positional arguments the items of that array, each converted, in
/// order.
pub proof fn array_params_give_positional_arguments(value: JsonModel, items: Seq<JsonModel>)
    requires
        message_of(value) is Ok,
        value matches JsonModel::Object(whole) && entries_get(whole, Field::Params.name()) == Some(
            JsonModel::Array(items),
        ),
    ensures
        message_of(value)->Ok_0.params.keyword() == Seq::<(Seq<char>, DynamicModel)>::empty(),
        message_of(value)->Ok_0.params.positional() == convert_list_model(items),
        message_of(value)->Ok_0.params.positional().len() == items.len(),
        forall|i: int|
            0 <= i < items.len() ==> #[trigger] message_of(value)->Ok_0.params.positional()[i]
                == convert_model(items[i]),
{
}

/// A message whose `params` is a JSON string gives that string as its one
/// positional argument, and no keyword argument.
pub proof fn string_params_give_one_positional_argument(value: JsonModel, text: Seq<char>)
    requires
        message_of(value) is Ok,
        value matches JsonModel::Object(whole) && entries_get(whole, Field::Params.name()) == Some(
            JsonModel::String(text),
        ),
    ensures
        message_of(value)->Ok_0.params.positional() == seq![DynamicModel::String(text)],
        message_of(value)->Ok_0.params.keyword() == Seq::<(Seq<char>, DynamicModel)>::empty(),
{
}

/// A value whose `params` is missing, or is null, a boolean or a number, is
/// no message.
pub proof fn other_params_are_refused(value: JsonModel)
    requires
        value matches JsonModel::Object(whole) ==> match entries_get(whole, Field::Params.name()) {
            None => true,
            Some(JsonModel::Null) => true,
            Some(JsonModel::Bool(_)) => true,
            Some(JsonModel::Number(_)) => true,
            Some(_) => false,
        },
    ensures
        message_of(value) is Err,
{
}

/// A whole number in the native range converts to that whole number, however
/// it is held; a number read as floating-point converts to a floating-point
/// number with the same text.
pub proof fn numbers_keep_their_kind(number: JsonNumber)
    ensures
        match number {
            JsonNumber::PosInt(u) => u <= i64::MAX ==> convert_model(JsonModel::Number(number@))
                == DynamicModel::Int(u as int),
            JsonNumber::NegInt(i) => convert_model(JsonModel::Number(number@)) == DynamicModel::Int(
                i as int,
            ),
            JsonNumber::Float(text) => convert_model(JsonModel::Number(number@))
                == DynamicModel::Float(text@),
        },
        number@ matches NumberModel::Integer(n) && fits_native(n) ==> convert_number_model(number@)
            is Int,
        number@ is Float ==> convert_number_model(number@) is Float,
{
}

/// Setting a parameter never gives a scalar parameter: keyword parameters
/// stay keyword parameters, positional ones stay positional, and a scalar
/// becomes two positional parameters.
pub proof fn params_never_become_scalar(params: ParamsModel, name: Seq<char>, value: JsonModel)
    ensures
        !(params.with_param(name, value) is String),
        params is Object ==> params.with_param(name, value) is Object,
        params is Array ==> params.with_param(name, value) is Array,
        params matches ParamsModel::String(s) ==> params.with_param(name, value)
            == ParamsModel::Array(seq![JsonModel::String(s), value]),
{
}

/// After a keyword parameter is set, the keyword arguments hold its converted
/// value under its name, and under every other name what they held before.
pub proof fn set_keyword_is_last_write_wins(
    members: Seq<(Seq<char>, JsonModel)>,
    name: Seq<char>,
    value: JsonModel,
)
    requires
        distinct_keys(members),
    ensures
        entries_get(ParamsModel::Object(members).with_param(name, value).keyword(), name) == Some(
            convert_model(value),
        ),
        forall|other: Seq<char>|
            other != name ==> #[trigger] entries_get(
                ParamsModel::Object(members).with_param(name, value).keyword(),
                other,
            ) == entries_get(ParamsModel::Object(members).keyword(), other),
{
    let after = ParamsModel::Object(members).with_param(name, value)->Object_0;
    lemma_insert(members, name, value);
    lemma_map_values(members, conversion());
    lemma_map_values(after, conversion());
}

/// After a positional parameter is set, the positional arguments are those
/// from before and then the converted value; the name plays no part.
pub proof fn set_positional_appends(items: Seq<JsonModel>, name: Seq<char>, value: JsonModel)
    ensures
        ParamsModel::Array(items).with_param(name, value).positional() == ParamsModel::Array(
            items,
        ).positional().push(convert_model(value)),
{
    assert(ParamsModel::Array(items).with_param(name, value).positional() =~= ParamsModel::Array(
        items,
    ).positional().push(convert_model(value)));
}

} // verus!
