//! JSON documents, parsed.
use crate::float_bits::Double;
use std::sync::Arc;
use vstd::prelude::*;

use crate::sharing::share;
use crate::text_build::same_text;

verus! {

/// A parsed JSON value. Collections are shared, so copying a value is cheap.
#[derive(Debug, PartialEq)]
pub enum Json {
    Null,
    Bool(bool),
    /// A number: the integer it is, where it fits, and the bits of the nearest
    /// double-precision number.
    Number { integer: Option<i64>, bits: Option<Double> },
    String(String),
    Array(Arc<Vec<Json>>),
    /// Members, in the order of their names.
    Object(Arc<Vec<(String, Json)>>),
}

impl Clone for Json {
    fn clone(&self) -> (r: Self)
        ensures
            r == *self,
    {
        match self {
            Json::Null => Json::Null,
            Json::Bool(b) => Json::Bool(*b),
            Json::Number { integer, bits } => Json::Number { integer: *integer, bits: *bits },
            Json::String(s) => Json::String(s.clone()),
            Json::Array(v) => Json::Array(share(v)),
            Json::Object(v) => Json::Object(share(v)),
        }
    }
}

/// The first member with this name.
pub open spec fn first_member(members: Seq<(String, Json)>, name: Seq<char>) -> Option<Json>
    decreases members.len(),
{
    if members.len() == 0 {
        None
    } else if members[0].0@ == name {
        Some(members[0].1)
    } else {
        first_member(members.drop_first(), name)
    }
}

impl Json {
    /// The member of an object with this name; other values have none.
    pub open spec fn field(self, name: Seq<char>) -> Option<Json> {
        match self {
            Json::Object(members) => first_member(members@, name),
            _ => None,
        }
    }

    /// The member of an object with this name; other values have none.
    pub fn get(&self, name: &str) -> (v: Option<&Json>)
        ensures
            v is Some <==> self.field(name@) is Some,
            v matches Some(v) ==> self.field(name@) == Some(*v),
    {
        match self {
            Json::Object(members) => {
                let mut i: usize = 0;
                assert(members@.skip(0) =~= members@);
                while i < members.len()
                    invariant
                        i <= members@.len(),
                        *self == Json::Object(*members),
                        first_member(members@, name@) == first_member(
                            members@.skip(i as int),
                            name@,
                        ),
                    decreases members@.len() - i,
                {
                    assert(members@.skip(i as int)[0] == members@[i as int]);
                    assert(members@.skip(i as int).drop_first() =~= members@.skip(i + 1));
                    if same_text(members[i].0.as_str(), name) {
                        return Some(&members[i].1);
                    }
                    i += 1;
                }
                None
            },
            _ => None,
        }
    }
}

/// What a JSON value says, whatever holds it.
#[verifier::ext_equal]
pub enum JsonModel {
    Null,
    Bool(bool),
    Number { integer: Option<i64>, bits: Option<u64> },
    Text(Seq<char>),
    Array(Seq<JsonModel>),
    Object(Seq<(Seq<char>, JsonModel)>),
}

/// What a JSON value says.
pub open spec fn json_view(j: Json) -> JsonModel
    decreases j,
{
    match j {
        Json::Null => JsonModel::Null,
        Json::Bool(b) => JsonModel::Bool(b),
        Json::Number { integer, bits } => JsonModel::Number {
            integer,
            bits: match bits {
                Some(d) => Some(d.0),
                None => None,
            },
        },
        Json::String(s) => JsonModel::Text(s@),
        Json::Array(v) => JsonModel::Array(json_list_view(v@)),
        Json::Object(v) => JsonModel::Object(json_members_view(v@)),
    }
}

/// What the elements of an array say.
pub open spec fn json_list_view(s: Seq<Json>) -> Seq<JsonModel>
    decreases s,
{
    if s.len() == 0 {
        Seq::empty()
    } else {
        json_list_view(s.drop_last()).push(json_view(s.last()))
    }
}

/// What the members of an object say.
pub open spec fn json_members_view(s: Seq<(String, Json)>) -> Seq<(Seq<char>, JsonModel)>
    decreases s,
{
    if s.len() == 0 {
        Seq::empty()
    } else {
        json_members_view(s.drop_last()).push((s.last().0@, json_view(s.last().1)))
    }
}

/// A parsed value as `serde_json` holds it.
#[verifier::external_type_specification]
#[verifier::external_body]
pub struct ExValue(serde_json::Value);

/// What a `serde_json::Value` holds.
pub uninterp spec fn value_contents(value: serde_json::Value) -> JsonModel;

/// The document that a text is, where it is one.
pub uninterp spec fn json_document(text: Seq<char>) -> Option<JsonModel>;

/// A `serde_json::Value` taken apart variant for variant: objects in the order
/// of its map, numbers as `as_i64` and the bits of `as_f64`.
#[verifier::external_body]
pub(crate) fn json_of(value: serde_json::Value) -> (j: Json)
    ensures
        json_view(j) == value_contents(value),
{
    match value {
        serde_json::Value::Null => Json::Null,
        serde_json::Value::Bool(b) => Json::Bool(b),
        serde_json::Value::Number(n) => {
            let bits = n.as_f64().map(|x| Double(x.to_bits()));
            Json::Number { integer: n.as_i64(), bits }
        },
        serde_json::Value::String(s) => Json::String(s),
        serde_json::Value::Array(v) => Json::Array(Arc::new(v.into_iter().map(json_of).collect())),
        serde_json::Value::Object(m) => {
            Json::Object(Arc::new(m.into_iter().map(|(k, v)| (k, json_of(v))).collect()))
        },
    }
}

/// `serde_json::from_str` into a `serde_json::Value`: the document that the text
/// is, or nothing where it is not JSON.
#[verifier::external_body]
pub(crate) fn parse_json(text: &str) -> (res: Option<serde_json::Value>)
    ensures
        match res {
            Some(value) => json_document(text@) == Some(value_contents(value)),
            None => json_document(text@) is None,
        },
{
    serde_json::from_str::<serde_json::Value>(text).ok()
}

} // verus!
