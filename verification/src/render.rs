//! Text for people: a dynamic value, and a whole message, written out.
//!
//! Values are written as a dynamic language writes its literals: `None`,
//! `True`, `False`, numbers by their digits, strings between single quotes,
//! lists between square brackets and dictionaries between braces.

use vstd::prelude::*;
use vstd::string::StringExecFns;
use crate::dynamic::{dict_model, list_model, DynamicModel, DynamicValue};
use crate::message::{Message, MessageModel};
use crate::strmap::StrMap;
use crate::text::{integer_text, integer_to_text, push_quoted, quoted};

verus! {

/// The text of a dynamic value.
pub open spec fn value_text(value: DynamicModel) -> Seq<char>
    decreases value, 0nat,
{
    match value {
        DynamicModel::Null => "None"@,
        DynamicModel::Bool(b) => if b {
            "True"@
        } else {
            "False"@
        },
        DynamicModel::Int(n) => integer_text(n),
        DynamicModel::Float(text) => text,
        DynamicModel::String(s) => quoted(s, '\''),
        DynamicModel::List(items) => "["@ + items_text(items, items.len()) + "]"@,
        DynamicModel::Dict(entries) => "{"@ + entries_text(entries, entries.len()) + "}"@,
    }
}

/// The text of the first `count` values of `items`, with `, ` between them.
pub open spec fn items_text(items: Seq<DynamicModel>, count: nat) -> Seq<char>
    decreases items, count,
{
    if count == 0 || count > items.len() {
        Seq::empty()
    } else if count == 1 {
        value_text(items[0])
    } else {
        items_text(items, (count - 1) as nat) + ", "@ + value_text(items[count - 1])
    }
}

/// The text of one entry of a dictionary: the key between single quotes, a
/// colon, and the value.
pub open spec fn entry_text(key: Seq<char>, value: DynamicModel) -> Seq<char>
    decreases value, 1nat,
{
    quoted(key, '\'') + ": "@ + value_text(value)
}

/// The text of the first `count` entries of `entries`, with `, ` between
/// them.
pub open spec fn entries_text(entries: Seq<(Seq<char>, DynamicModel)>, count: nat) -> Seq<char>
    decreases entries, count,
{
    if count == 0 || count > entries.len() {
        Seq::empty()
    } else if count == 1 {
        entry_text(entries[0].0, entries[0].1)
    } else {
        entries_text(entries, (count - 1) as nat) + ", "@ + entry_text(
            entries[count - 1].0,
            entries[count - 1].1,
        )
    }
}

/// The text of a message: its three names between double quotes, then the
/// positional and the keyword arguments that its parameters give.
pub open spec fn message_text(message: MessageModel) -> Seq<char> {
    let positional = message.params.positional();
    let keyword = message.params.keyword();
    "Message(jsonrpc="@ + quoted(message.jsonrpc, '"') + ", id="@ + quoted(message.id, '"')
        + ", method="@ + quoted(message.method, '"') + ", params={args: ["@ + items_text(
        positional,
        positional.len(),
    ) + "], kwargs: {"@ + entries_text(keyword, keyword.len()) + "}})"@
}

/// Appends the text of `value` to `out`.
pub fn push_value(out: &mut String, value: &DynamicValue)
    ensures
        final(out)@ == old(out)@ + value_text(value@),
    decreases value,
{
    match value {
        DynamicValue::Null => {
            out.append("None");
        },
        DynamicValue::Bool(b) => {
            if *b {
                out.append("True");
            } else {
                out.append("False");
            }
        },
        DynamicValue::Int(n) => {
            let digits = integer_to_text(*n);
            out.append(digits.as_str());
        },
        DynamicValue::Float(text) => {
            out.append(text.as_str());
        },
        DynamicValue::String(s) => {
            push_quoted(out, s.as_str(), '\'');
        },
        DynamicValue::List(items) => {
            proof {
                DynamicValue::lemma_list_view(*items);
                assert(decreases_to!(*value => value->List_0));
            }
            out.append("[");
            push_items(out, items);
            out.append("]");
            assert(out@ =~= old(out)@ + value_text(value@));
        },
        DynamicValue::Dict(entries) => {
            proof {
                DynamicValue::lemma_dict_view(*entries);
                assert(decreases_to!(*value => value->Dict_0));
            }
            out.append("{");
            push_entries(out, entries);
            out.append("}");
            assert(out@ =~= old(out)@ + value_text(value@));
        },
    }
}

/// Appends the text of the values of `items` to `out`, with `, ` between
/// them.
pub fn push_items(out: &mut String, items: &Vec<DynamicValue>)
    ensures
        final(out)@ == old(out)@ + items_text(list_model(items@), items@.len()),
    decreases items,
{
    let mut i: usize = 0;
    assert(out@ =~= old(out)@ + items_text(list_model(items@), 0));
    while i < items.len()
        invariant
            i <= items@.len(),
            out@ == old(out)@ + items_text(list_model(items@), i as nat),
        decreases items@.len() - i,
    {
        if i > 0 {
            out.append(", ");
        }
        proof {
            assert(decreases_to!(*items => items[i as int]));
        }
        push_value(out, &items[i]);
        proof {
            let models = list_model(items@);
            assert(models[i as int] == items@[i as int]@);
            assert(out@ =~= old(out)@ + items_text(models, (i + 1) as nat));
        }
        i += 1;
    }
}

/// Appends the text of the entries of `entries` to `out`, with `, ` between
/// them.
pub fn push_entries(out: &mut String, entries: &StrMap<DynamicValue>)
    ensures
        final(out)@ == old(out)@ + entries_text(
            dict_model(entries.entries()),
            entries.entries().len(),
        ),
    decreases entries,
{
    let count = entries.len();
    let mut i: usize = 0;
    assert(out@ =~= old(out)@ + entries_text(dict_model(entries.entries()), 0));
    while i < count
        invariant
            i <= count,
            count == entries.entries().len(),
            out@ == old(out)@ + entries_text(dict_model(entries.entries()), i as nat),
        decreases count - i,
    {
        if i > 0 {
            out.append(", ");
        }
        let ghost parted = out@;
        push_quoted(out, entries.key_at(i).as_str(), '\'');
        out.append(": ");
        proof {
            entries.lemma_entry_is_part(i as int);
        }
        push_value(out, entries.value_at(i));
        proof {
            let models = dict_model(entries.entries());
            let key = entries.entries()[i as int].0;
            let value = entries.entries()[i as int].1@;
            assert(models[i as int] == (key, value));
            assert(out@ =~= parted + entry_text(key, value));
            if i > 0 {
                assert(entries_text(models, (i + 1) as nat) == entries_text(models, i as nat)
                    + ", "@ + entry_text(key, value));
            } else {
                assert(entries_text(models, 1) == entry_text(key, value));
            }
            assert(out@ =~= old(out)@ + entries_text(models, (i + 1) as nat));
        }
        i += 1;
    }
}

impl DynamicValue {
    /// The text of the value.
    pub fn render(&self) -> (text: String)
        ensures
            text@ == value_text(self@),
    {
        let mut text = String::new();
        push_value(&mut text, self);
        assert(text@ =~= value_text(self@));
        text
    }
}

impl Message {
    /// The text of the message, as `message_text` says.
    pub fn render(&self) -> (text: String)
        ensures
            text@ == message_text(self@),
    {
        let (positional, keyword) = self.materialize_params();
        let mut text = String::from_str("Message(jsonrpc=");
        push_quoted(&mut text, self.jsonrpc().as_str(), '"');
        text.append(", id=");
        push_quoted(&mut text, self.id().as_str(), '"');
        text.append(", method=");
        push_quoted(&mut text, self.method().as_str(), '"');
        text.append(", params={args: [");
        push_items(&mut text, &positional);
        text.append("], kwargs: {");
        push_entries(&mut text, &keyword);
        text.append("}})");
        assert(text@ =~= message_text(self@));
        text
    }
}

} // verus!
