//! JSON values and what they mean.
//!
//! `JsonValue` is the value as the program holds it; `JsonModel` is the
//! mathematical value that contracts speak of, reached with `@`.

use vstd::prelude::*;
use crate::strmap::{
    distinct_keys, entries_get, entries_insert, lemma_map_values, lemma_map_values_insert,
    map_values, StrMap,
};

verus! {

/// A JSON number, kept in the form in which it was read.
#[derive(Clone, Debug)]
pub enum JsonNumber {
    /// A whole number from zero to `u64::MAX`.
    PosInt(u64),
    /// A whole number below zero.
    NegInt(i64),
    /// A number that was written with a fraction or an exponent, or whose
    /// digits run beyond the two variants above. Held as decimal text.
    Float(String),
}

/// What a JSON number means: a whole number, or a floating-point number given
/// by its decimal text.
pub enum NumberModel {
    Integer(int),
    Float(Seq<char>),
}

impl JsonNumber {
    pub open spec fn view(&self) -> NumberModel {
        match self {
            JsonNumber::PosInt(u) => NumberModel::Integer(*u as int),
            JsonNumber::NegInt(i) => NumberModel::Integer(*i as int),
            JsonNumber::Float(text) => NumberModel::Float(text@),
        }
    }
}

/// A JSON value.
#[derive(Debug)]
pub enum JsonValue {
    Null,
    Bool(bool),
    Number(JsonNumber),
    String(String),
    Array(Vec<JsonValue>),
    Object(StrMap<JsonValue>),
}

/// What a JSON value means. The members of an object are listed in their
/// order, each key once.
pub enum JsonModel {
    Null,
    Bool(bool),
    Number(NumberModel),
    String(Seq<char>),
    Array(Seq<JsonModel>),
    Object(Seq<(Seq<char>, JsonModel)>),
}

/// The meaning of each value of a list, in order.
pub open spec fn values_model(items: Seq<JsonValue>) -> Seq<JsonModel> {
    Seq::new(items.len(), |i: int| items[i]@)
}

/// The function from a JSON value to what it means.
pub open spec fn meaning() -> spec_fn(JsonValue) -> JsonModel {
    |value: JsonValue| value@
}

/// The meaning of each member of an object, under the same key and in the
/// same order.
pub open spec fn members_model(members: Seq<(Seq<char>, JsonValue)>) -> Seq<
    (Seq<char>, JsonModel),
> {
    map_values(members, meaning())
}

/// The meaning of the members has the keys of the members, and under each
/// key the meaning of its value.
pub proof fn lemma_members_model(members: Seq<(Seq<char>, JsonValue)>)
    requires
        distinct_keys(members),
    ensures
        distinct_keys(members_model(members)),
        forall|key: Seq<char>| #[trigger]
            entries_get(members_model(members), key) == match entries_get(members, key) {
                Some(value) => Some(value@),
                None => None,
            },
{
    lemma_map_values(members, meaning());
}

/// Setting a member sets its meaning.
pub proof fn lemma_members_model_insert(
    members: Seq<(Seq<char>, JsonValue)>,
    key: Seq<char>,
    value: JsonValue,
)
    requires
        distinct_keys(members),
    ensures
        members_model(entries_insert(members, key, value)) == entries_insert(
            members_model(members),
            key,
            value@,
        ),
{
    lemma_map_values_insert(members, meaning(), key, value);
}

impl JsonValue {
    pub open spec fn view(&self) -> JsonModel
        decreases self,
    {
        match self {
            JsonValue::Null => JsonModel::Null,
            JsonValue::Bool(b) => JsonModel::Bool(*b),
            JsonValue::Number(n) => JsonModel::Number(n@),
            JsonValue::String(s) => JsonModel::String(s@),
            JsonValue::Array(items) => JsonModel::Array(
                Seq::new(
                    items@.len(),
                    |i: int|
                        if 0 <= i < items@.len() {
                            items@[i].view()
                        } else {
                            JsonModel::Null
                        },
                ),
            ),
            JsonValue::Object(members) => JsonModel::Object(
                Seq::new(
                    members.entries().len(),
                    |i: int|
                        if 0 <= i < members.entries().len() {
                            proof {
                                members.lemma_entry_is_part(i);
                            }
                            (members.entries()[i].0, members.entries()[i].1.view())
                        } else {
                            (Seq::empty(), JsonModel::Null)
                        },
                ),
            ),
        }
    }

    /// An array means the list of what its items mean.
    pub proof fn lemma_array_view(items: Vec<JsonValue>)
        ensures
            JsonValue::Array(items)@ == JsonModel::Array(values_model(items@)),
    {
        assert(JsonValue::Array(items)@->Array_0 =~= values_model(items@));
    }

    /// An object means the list of what its members mean.
    pub proof fn lemma_object_view(members: StrMap<JsonValue>)
        ensures
            JsonValue::Object(members)@ == JsonModel::Object(members_model(members.entries())),
    {
        assert(JsonValue::Object(members)@->Object_0 =~= members_model(members.entries()));
    }
}

} // verus!
