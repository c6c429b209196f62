//! An in-memory JSON document value and its mathematical view.

use vstd::prelude::*;

verus! {

/// A decoded JSON value. Numbers are kept as their source text; the members
/// of an object are kept in document order.
#[derive(Debug, PartialEq)]
pub enum JsonValue {
    Null,
    Bool(bool),
    Number(String),
    Str(String),
    Array(Vec<JsonValue>),
    Object(Vec<(String, JsonValue)>),
}

/// The mathematical view of a [`JsonValue`].
pub enum JsonModel {
    Null,
    Bool(bool),
    Number(Seq<char>),
    Str(Seq<char>),
    Array(Seq<JsonModel>),
    Object(Seq<(Seq<char>, JsonModel)>),
}

pub open spec fn json_model(j: JsonValue) -> JsonModel
    decreases j,
{
    match j {
        JsonValue::Null => JsonModel::Null,
        JsonValue::Bool(b) => JsonModel::Bool(b),
        JsonValue::Number(t) => JsonModel::Number(t@),
        JsonValue::Str(s) => JsonModel::Str(s@),
        JsonValue::Array(items) => JsonModel::Array(items_model(items@)),
        JsonValue::Object(members) => JsonModel::Object(members_model(members@)),
    }
}

pub open spec fn items_model(items: Seq<JsonValue>) -> Seq<JsonModel>
    decreases items,
{
    if items.len() == 0 {
        Seq::empty()
    } else {
        items_model(items.subrange(0, items.len() - 1)).push(json_model(items[items.len() - 1]))
    }
}

pub open spec fn members_model(members: Seq<(String, JsonValue)>) -> Seq<(Seq<char>, JsonModel)>
    decreases members,
{
    if members.len() == 0 {
        Seq::empty()
    } else {
        let last = members[members.len() - 1];
        members_model(members.subrange(0, members.len() - 1)).push((last.0@, json_model(last.1)))
    }
}

impl View for JsonValue {
    type V = JsonModel;

    open spec fn view(&self) -> JsonModel {
        json_model(*self)
    }
}

pub proof fn lemma_members_model(members: Seq<(String, JsonValue)>)
    ensures
        members_model(members).len() == members.len(),
        forall|i: int|
            0 <= i < members.len() ==> #[trigger] members_model(members)[i] == (
                members[i].0@,
                json_model(members[i].1),
            ),
    decreases members.len(),
{
    if members.len() > 0 {
        lemma_members_model(members.subrange(0, members.len() - 1));
    }
}

/// The value bound to `key` among named entries, where a later entry of the
/// same name replaces an earlier one.
pub open spec fn lookup<V>(entries: Seq<(Seq<char>, V)>, key: Seq<char>) -> Option<V>
    decreases entries.len(),
{
    if entries.len() == 0 {
        None
    } else if entries[entries.len() - 1].0 == key {
        Some(entries[entries.len() - 1].1)
    } else {
        lookup(entries.subrange(0, entries.len() - 1), key)
    }
}

} // verus!
