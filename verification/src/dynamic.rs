//! Dynamic values: what a decoded parameter is handed on as.
//!
//! A dynamic value is one of a fixed set of shapes, with whole numbers and
//! floating-point numbers kept apart. `convert` maps every JSON value to one.

use vstd::prelude::*;
use crate::json::{members_model, values_model, JsonModel, JsonNumber, JsonValue, NumberModel};
use crate::strmap::{distinct_keys, has_key, map_values, position, StrMap};
use crate::text::{decimal_text, unsigned_to_text};

verus! {

/// A value of a dynamically typed runtime.
#[derive(Debug)]
pub enum DynamicValue {
    /// The runtime's "no value".
    Null,
    Bool(bool),
    /// A whole number in the native range.
    Int(i64),
    /// A floating-point number, held as its decimal text.
    Float(String),
    String(String),
    List(Vec<DynamicValue>),
    Dict(StrMap<DynamicValue>),
}

/// What a dynamic value means. The entries of a dictionary are listed in
/// their order, each key once.
pub enum DynamicModel {
    Null,
    Bool(bool),
    Int(int),
    Float(Seq<char>),
    String(Seq<char>),
    List(Seq<DynamicModel>),
    Dict(Seq<(Seq<char>, DynamicModel)>),
}

/// The meaning of each value of a list, in order.
pub open spec fn list_model(items: Seq<DynamicValue>) -> Seq<DynamicModel> {
    Seq::new(items.len(), |i: int| items[i]@)
}

/// The function from a dynamic value to what it means.
pub open spec fn meaning() -> spec_fn(DynamicValue) -> DynamicModel {
    |value: DynamicValue| value@
}

/// The meaning of each entry of a dictionary, under the same key and in the
/// same order.
pub open spec fn dict_model(entries: Seq<(Seq<char>, DynamicValue)>) -> Seq<
    (Seq<char>, DynamicModel),
> {
    map_values(entries, meaning())
}

impl DynamicValue {
    pub open spec fn view(&self) -> DynamicModel
        decreases self,
    {
        match self {
            DynamicValue::Null => DynamicModel::Null,
            DynamicValue::Bool(b) => DynamicModel::Bool(*b),
            DynamicValue::Int(n) => DynamicModel::Int(*n as int),
            DynamicValue::Float(text) => DynamicModel::Float(text@),
            DynamicValue::String(s) => DynamicModel::String(s@),
            DynamicValue::List(items) => DynamicModel::List(
                Seq::new(
                    items@.len(),
                    |i: int|
                        if 0 <= i < items@.len() {
                            items@[i].view()
                        } else {
                            DynamicModel::Null
                        },
                ),
            ),
            DynamicValue::Dict(entries) => DynamicModel::Dict(
                Seq::new(
                    entries.entries().len(),
                    |i: int|
                        if 0 <= i < entries.entries().len() {
                            proof {
                                entries.lemma_entry_is_part(i);
                            }
                            (entries.entries()[i].0, entries.entries()[i].1.view())
                        } else {
                            (Seq::empty(), DynamicModel::Null)
                        },
                ),
            ),
        }
    }

    /// A list means the list of what its items mean.
    pub proof fn lemma_list_view(items: Vec<DynamicValue>)
        ensures
            DynamicValue::List(items)@ == DynamicModel::List(list_model(items@)),
    {
        assert(DynamicValue::List(items)@->List_0 =~= list_model(items@));
    }

    /// A dictionary means the list of what its entries mean.
    pub proof fn lemma_dict_view(entries: StrMap<DynamicValue>)
        ensures
            DynamicValue::Dict(entries)@ == DynamicModel::Dict(dict_model(entries.entries())),
    {
        assert(DynamicValue::Dict(entries)@->Dict_0 =~= dict_model(entries.entries()));
    }
}

/// True when `n` is in the native integer range, that of `i64`.
pub open spec fn fits_native(n: int) -> bool {
    i64::MIN <= n <= i64::MAX
}

/// The dynamic value of a JSON number. A whole number in the native range
/// stays a whole number. Any other number is floating-point: one read as such
/// keeps its text, a whole number beyond the range is given by its digits.
pub open spec fn convert_number_model(n: NumberModel) -> DynamicModel {
    match n {
        NumberModel::Integer(i) => if fits_native(i) {
            DynamicModel::Int(i)
        } else if i >= 0 {
            DynamicModel::Float(decimal_text(i as nat))
        } else {
            DynamicModel::Float(seq!['-'] + decimal_text((-i) as nat))
        },
        NumberModel::Float(text) => DynamicModel::Float(text),
    }
}

/// The dynamic value of each JSON value of a list, in order.
pub open spec fn convert_list_model(items: Seq<JsonModel>) -> Seq<DynamicModel> {
    Seq::new(items.len(), |i: int| convert_model(items[i]))
}

/// The function from a JSON value to its dynamic value.
pub open spec fn conversion() -> spec_fn(JsonModel) -> DynamicModel {
    |value: JsonModel| convert_model(value)
}

/// The dynamic value of each member of an object, under the same key and in
/// the same order.
pub open spec fn convert_members_model(members: Seq<(Seq<char>, JsonModel)>) -> Seq<
    (Seq<char>, DynamicModel),
> {
    map_values(members, conversion())
}

/// The dynamic value of a JSON value.
pub open spec fn convert_model(value: JsonModel) -> DynamicModel
    decreases value,
{
    match value {
        JsonModel::Null => DynamicModel::Null,
        JsonModel::Bool(b) => DynamicModel::Bool(b),
        JsonModel::Number(n) => convert_number_model(n),
        JsonModel::String(s) => DynamicModel::String(s),
        JsonModel::Array(items) => DynamicModel::List(
            Seq::new(
                items.len(),
                |i: int|
                    if 0 <= i < items.len() {
                        convert_model(items[i])
                    } else {
                        DynamicModel::Null
                    },
            ),
        ),
        JsonModel::Object(members) => DynamicModel::Dict(
            Seq::new(
                members.len(),
                |i: int|
                    if 0 <= i < members.len() {
                        (members[i].0, convert_model(members[i].1))
                    } else {
                        (Seq::empty(), DynamicModel::Null)
                    },
            ),
        ),
    }
}

/// An array converts to the list of its converted items.
pub proof fn lemma_convert_array(items: Seq<JsonModel>)
    ensures
        convert_model(JsonModel::Array(items)) == DynamicModel::List(convert_list_model(items)),
{
    assert(convert_model(JsonModel::Array(items))->List_0 =~= convert_list_model(items));
}

/// An object converts to the dictionary of its converted members.
pub proof fn lemma_convert_object(members: Seq<(Seq<char>, JsonModel)>)
    ensures
        convert_model(JsonModel::Object(members)) == DynamicModel::Dict(
            convert_members_model(members),
        ),
{
    assert(convert_model(JsonModel::Object(members))->Dict_0 =~= convert_members_model(members));
}

/// The dynamic value of a JSON number.
pub fn convert_number(n: &JsonNumber) -> (d: DynamicValue)
    ensures
        d@ == convert_number_model(n@),
{
    match n {
        JsonNumber::PosInt(u) => {
            if *u <= i64::MAX as u64 {
                DynamicValue::Int(*u as i64)
            } else {
                DynamicValue::Float(unsigned_to_text(*u))
            }
        },
        JsonNumber::NegInt(i) => DynamicValue::Int(*i),
        JsonNumber::Float(text) => DynamicValue::Float(text.clone()),
    }
}

/// The dynamic value of a JSON value: null, booleans and strings as they
/// are, numbers by `convert_number`, and the items of arrays and the members
/// of objects converted in turn, in their order and under their keys.
pub fn convert(value: &JsonValue) -> (d: DynamicValue)
    ensures
        d@ == convert_model(value@),
    decreases value,
{
    match value {
        JsonValue::Null => DynamicValue::Null,
        JsonValue::Bool(b) => DynamicValue::Bool(*b),
        JsonValue::Number(n) => convert_number(n),
        JsonValue::String(s) => DynamicValue::String(s.clone()),
        JsonValue::Array(items) => {
            proof {
                assert(decreases_to!(*value => value->Array_0));
            }
            let list = convert_list(items);
            proof {
                JsonValue::lemma_array_view(*items);
                lemma_convert_array(values_model(items@));
                DynamicValue::lemma_list_view(list);
            }
            DynamicValue::List(list)
        },
        JsonValue::Object(members) => {
            proof {
                assert(decreases_to!(*value => value->Object_0));
            }
            let dict = convert_members(members);
            proof {
                JsonValue::lemma_object_view(*members);
                lemma_convert_object(members_model(members.entries()));
                DynamicValue::lemma_dict_view(dict);
            }
            DynamicValue::Dict(dict)
        },
    }
}

/// The dynamic value of each JSON value of a list, in order.
pub fn convert_list(items: &Vec<JsonValue>) -> (list: Vec<DynamicValue>)
    ensures
        list_model(list@) == convert_list_model(values_model(items@)),
    decreases items,
{
    let mut list: Vec<DynamicValue> = Vec::new();
    let mut i: usize = 0;
    while i < items.len()
        invariant
            i <= items@.len(),
            list@.len() == i,
            forall|j: int| 0 <= j < i ==> (#[trigger] list@[j])@ == convert_model(items@[j]@),
        decreases items@.len() - i,
    {
        proof {
            assert(decreases_to!(*items => items[i as int]));
        }
        let item = convert(&items[i]);
        list.push(item);
        i += 1;
    }
    assert(list_model(list@) =~= convert_list_model(values_model(items@)));
    list
}

/// The dynamic value of each member of an object, under the same key and in
/// the same order.
pub fn convert_members(members: &StrMap<JsonValue>) -> (dict: StrMap<DynamicValue>)
    ensures
        dict_model(dict.entries()) == convert_members_model(members_model(members.entries())),
    decreases members,
{
    let mut dict: StrMap<DynamicValue> = StrMap::new();
    let count = members.len();
    let mut i: usize = 0;
    while i < count
        invariant
            i <= count,
            count == members.entries().len(),
            distinct_keys(members.entries()),
            dict.entries().len() == i,
            forall|j: int|
                0 <= j < i ==> {
                    &&& (#[trigger] dict.entries()[j]).0 == members.entries()[j].0
                    &&& dict.entries()[j].1@ == convert_model(members.entries()[j].1@)
                },
        decreases count - i,
    {
        let key = members.key_at(i).clone();
        proof {
            members.lemma_entry_is_part(i as int);
            if has_key(dict.entries(), key@) {
                let p = position(dict.entries(), key@);
                assert(members.entries()[p].0 == members.entries()[i as int].0);
            }
        }
        let item = convert(members.value_at(i));
        dict.push_fresh(key, item);
        i += 1;
    }
    assert(dict_model(dict.entries()) =~= convert_members_model(
        members_model(members.entries()),
    ));
    dict
}

} // verus!
