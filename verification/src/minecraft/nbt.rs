//! Named binary tags, decoded.
//!
//! Collections are shared, so copying a tag is cheap.
use std::sync::Arc;
use vstd::prelude::*;

use crate::sharing::share;
use crate::text_build::same_text;

verus! {

/// A list tag: the tag id of its elements, and the elements.
#[derive(Debug, PartialEq)]
pub struct NbtList {
    pub tag: u8,
    pub items: Vec<Nbt>,
}

/// A decoded tag. The two floating-point tags hold the bits of the number.
#[derive(Debug)]
pub enum Nbt {
    Byte(i8),
    Short(i16),
    Int(i32),
    Long(i64),
    /// Bits of a single-precision number.
    Float(u32),
    /// Bits of a double-precision number.
    Double(u64),
    ByteArray(Arc<Vec<i8>>),
    String(String),
    List(Arc<NbtList>),
    Compound(Arc<Vec<(String, Nbt)>>),
    IntArray(Arc<Vec<i32>>),
    LongArray(Arc<Vec<i64>>),
}

/// The first entry with this name.
pub open spec fn first_named(entries: Seq<(String, Nbt)>, name: Seq<char>) -> Option<Nbt>
    decreases entries.len(),
{
    if entries.len() == 0 {
        None
    } else if entries[0].0@ == name {
        Some(entries[0].1)
    } else {
        first_named(entries.drop_first(), name)
    }
}

impl Nbt {
    /// The entry of a compound with this name; other tags have none.
    pub open spec fn field(self, name: Seq<char>) -> Option<Nbt> {
        match self {
            Nbt::Compound(entries) => first_named(entries@, name),
            _ => None,
        }
    }

    /// The entry of a compound with this name; other tags have none.
    pub fn get(&self, name: &str) -> (v: Option<&Nbt>)
        ensures
            v is Some <==> self.field(name@) is Some,
            v matches Some(v) ==> self.field(name@) == Some(*v),
    {
        match self {
            Nbt::Compound(entries) => {
                let mut i: usize = 0;
                assert(entries@.skip(0) =~= entries@);
                while i < entries.len()
                    invariant
                        i <= entries@.len(),
                        *self == Nbt::Compound(*entries),
                        first_named(entries@, name@) == first_named(entries@.skip(i as int), name@),
                    decreases entries@.len() - i,
                {
                    assert(entries@.skip(i as int)[0] == entries@[i as int]);
                    assert(entries@.skip(i as int).drop_first() =~= entries@.skip(i + 1));
                    if same_text(entries[i].0.as_str(), name) {
                        return Some(&entries[i].1);
                    }
                    i += 1;
                }
                None
            },
            _ => None,
        }
    }

    /// The wire id of the tag.
    pub open spec fn wire_id(self) -> u8 {
        match self {
            Nbt::Byte(_) => 1,
            Nbt::Short(_) => 2,
            Nbt::Int(_) => 3,
            Nbt::Long(_) => 4,
            Nbt::Float(_) => 5,
            Nbt::Double(_) => 6,
            Nbt::ByteArray(_) => 7,
            Nbt::String(_) => 8,
            Nbt::List(_) => 9,
            Nbt::Compound(_) => 10,
            Nbt::IntArray(_) => 11,
            Nbt::LongArray(_) => 12,
        }
    }

    /// The wire id of the tag.
    pub fn tag_id(&self) -> (id: u8)
        ensures
            id == self.wire_id(),
    {
        match self {
            Nbt::Byte(_) => 1,
            Nbt::Short(_) => 2,
            Nbt::Int(_) => 3,
            Nbt::Long(_) => 4,
            Nbt::Float(_) => 5,
            Nbt::Double(_) => 6,
            Nbt::ByteArray(_) => 7,
            Nbt::String(_) => 8,
            Nbt::List(_) => 9,
            Nbt::Compound(_) => 10,
            Nbt::IntArray(_) => 11,
            Nbt::LongArray(_) => 12,
        }
    }
}

impl Clone for Nbt {
    fn clone(&self) -> (r: Self)
        ensures
            r == *self,
    {
        match self {
            Nbt::Byte(v) => Nbt::Byte(*v),
            Nbt::Short(v) => Nbt::Short(*v),
            Nbt::Int(v) => Nbt::Int(*v),
            Nbt::Long(v) => Nbt::Long(*v),
            Nbt::Float(v) => Nbt::Float(*v),
            Nbt::Double(v) => Nbt::Double(*v),
            Nbt::ByteArray(v) => Nbt::ByteArray(share(v)),
            Nbt::String(v) => Nbt::String(v.clone()),
            Nbt::List(v) => Nbt::List(share(v)),
            Nbt::Compound(v) => Nbt::Compound(share(v)),
            Nbt::IntArray(v) => Nbt::IntArray(share(v)),
            Nbt::LongArray(v) => Nbt::LongArray(share(v)),
        }
    }
}

/// What a tag says, whatever holds it.
#[verifier::ext_equal]
pub enum NbtModel {
    Number { tag: u8, value: int },
    Bytes(Seq<i8>),
    Text(Seq<char>),
    List { tag: u8, items: Seq<NbtModel> },
    Compound(Seq<(Seq<char>, NbtModel)>),
    Ints(Seq<i32>),
    Longs(Seq<i64>),
}

/// What a tag says.
pub open spec fn nbt_view(n: Nbt) -> NbtModel
    decreases n,
{
    match n {
        Nbt::Byte(v) => NbtModel::Number { tag: 1, value: v as int },
        Nbt::Short(v) => NbtModel::Number { tag: 2, value: v as int },
        Nbt::Int(v) => NbtModel::Number { tag: 3, value: v as int },
        Nbt::Long(v) => NbtModel::Number { tag: 4, value: v as int },
        Nbt::Float(v) => NbtModel::Number { tag: 5, value: v as int },
        Nbt::Double(v) => NbtModel::Number { tag: 6, value: v as int },
        Nbt::ByteArray(v) => NbtModel::Bytes(v@),
        Nbt::String(v) => NbtModel::Text(v@),
        Nbt::List(v) => NbtModel::List { tag: v.tag, items: nbt_list_view(v.items@) },
        Nbt::Compound(v) => NbtModel::Compound(nbt_entries_view(v@)),
        Nbt::IntArray(v) => NbtModel::Ints(v@),
        Nbt::LongArray(v) => NbtModel::Longs(v@),
    }
}

/// What the elements of a list say.
pub open spec fn nbt_list_view(s: Seq<Nbt>) -> Seq<NbtModel>
    decreases s,
{
    if s.len() == 0 {
        Seq::empty()
    } else {
        nbt_list_view(s.drop_last()).push(nbt_view(s.last()))
    }
}

/// What the entries of a compound say.
pub open spec fn nbt_entries_view(s: Seq<(String, Nbt)>) -> Seq<(Seq<char>, NbtModel)>
    decreases s,
{
    if s.len() == 0 {
        Seq::empty()
    } else {
        nbt_entries_view(s.drop_last()).push((s.last().0@, nbt_view(s.last().1)))
    }
}

} // verus!
