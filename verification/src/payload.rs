//! Outgoing JSON documents, before they are written.
use vstd::prelude::*;
use crate::float::FloatBits;

verus! {

/// An outgoing JSON value.
#[derive(Debug, PartialEq, Eq)]
pub enum Payload {
    Text(String),
    Unsigned(u64),
    Signed(i64),
    Float(FloatBits),
    List(Vec<Payload>),
    Members(Vec<(String, Payload)>),
}

/// What an outgoing JSON value is.
pub enum PayloadModel {
    Text(Seq<char>),
    Unsigned(u64),
    Signed(i64),
    Float(FloatBits),
    List(Seq<PayloadModel>),
    Members(Seq<(Seq<char>, PayloadModel)>),
}

/// The model of a value.
pub open spec fn payload_model(value: Payload) -> PayloadModel
    decreases value,
{
    match value {
        Payload::Text(s) => PayloadModel::Text(s@),
        Payload::Unsigned(n) => PayloadModel::Unsigned(n),
        Payload::Signed(n) => PayloadModel::Signed(n),
        Payload::Float(x) => PayloadModel::Float(x),
        Payload::List(items) => PayloadModel::List(list_model(items@)),
        Payload::Members(members) => PayloadModel::Members(members_model(members@)),
    }
}

/// The models of a list of values.
pub open spec fn list_model(items: Seq<Payload>) -> Seq<PayloadModel>
    decreases items,
{
    if items.len() == 0 {
        Seq::empty()
    } else {
        list_model(items.drop_last()).push(payload_model(items.last()))
    }
}

/// The models of a list of named values.
pub open spec fn members_model(members: Seq<(String, Payload)>) -> Seq<(Seq<char>, PayloadModel)>
    decreases members,
{
    if members.len() == 0 {
        Seq::empty()
    } else {
        members_model(members.drop_last()).push(
            (members.last().0@, payload_model(members.last().1)),
        )
    }
}

impl View for Payload {
    type V = PayloadModel;

    open spec fn view(&self) -> PayloadModel {
        payload_model(*self)
    }
}

/// Adds a named value behind the others.
pub fn push_member(members: &mut Vec<(String, Payload)>, name: &str, value: Payload)
    ensures
        members_model(final(members)@) == members_model(old(members)@).push((name@, value@)),
{
    let ghost before = members@;
    members.push((name.to_owned(), value));
    assert(members@.drop_last() =~= before);
}

/// Adds a value behind the others.
pub fn push_value(items: &mut Vec<Payload>, value: Payload)
    ensures
        list_model(final(items)@) == list_model(old(items)@).push(value@),
{
    let ghost before = items@;
    items.push(value);
    assert(items@.drop_last() =~= before);
}

/// A text value.
pub fn text_value(s: &str) -> (r: Payload)
    ensures
        r@ == PayloadModel::Text(s@),
{
    Payload::Text(s.to_owned())
}

} // verus!
