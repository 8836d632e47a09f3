//! How tags are written in reports.
use crate::minecraft::nbt::Nbt;
use crate::minecraft::nbt_wire::Number;
use crate::text_build::{append_int, debug_text, decimal, quoted};
use vstd::prelude::*;

verus! {

/// Numbers, separated by commas.
pub open spec fn numbers_text<T: Number>(v: Seq<T>) -> Seq<char>
    decreases v.len(),
{
    if v.len() == 0 {
        Seq::empty()
    } else if v.len() == 1 {
        decimal(v[0].value())
    } else {
        numbers_text(v.drop_last()) + ", "@ + decimal(v.last().value())
    }
}

/// A tag in writing: its kind and, in brackets, what it holds. The value of a
/// floating-point tag is left out.
pub open spec fn tag_text(n: Nbt) -> Seq<char>
    decreases n,
{
    match n {
        Nbt::Byte(v) => "Byte("@ + decimal(v as int) + ")"@,
        Nbt::Short(v) => "Short("@ + decimal(v as int) + ")"@,
        Nbt::Int(v) => "Int("@ + decimal(v as int) + ")"@,
        Nbt::Long(v) => "Long("@ + decimal(v as int) + ")"@,
        Nbt::Float(_) => "Float(..)"@,
        Nbt::Double(_) => "Double(..)"@,
        Nbt::ByteArray(v) => "ByteArray(["@ + numbers_text(v@) + "])"@,
        Nbt::String(v) => "String("@ + debug_text(v@) + ")"@,
        Nbt::List(v) => "List(NbtList { tag: "@ + decimal(v.tag as int) + ", items: ["@
            + items_text(v.items@) + "] })"@,
        Nbt::Compound(v) => "Compound(["@ + entries_text(v@) + "])"@,
        Nbt::IntArray(v) => "IntArray(["@ + numbers_text(v@) + "])"@,
        Nbt::LongArray(v) => "LongArray(["@ + numbers_text(v@) + "])"@,
    }
}

/// The elements of a list, separated by commas.
pub open spec fn items_text(s: Seq<Nbt>) -> Seq<char>
    decreases s,
{
    if s.len() == 0 {
        Seq::empty()
    } else if s.len() == 1 {
        items_text(s.drop_last()) + tag_text(s.last())
    } else {
        items_text(s.drop_last()) + ", "@ + tag_text(s.last())
    }
}

/// The entries of a compound, names quoted, separated by commas.
pub open spec fn entries_text(s: Seq<(String, Nbt)>) -> Seq<char>
    decreases s,
{
    if s.len() == 0 {
        Seq::empty()
    } else if s.len() == 1 {
        entries_text(s.drop_last()) + "("@ + debug_text(s.last().0@) + ", "@ + tag_text(s.last().1)
            + ")"@
    } else {
        entries_text(s.drop_last()) + ", "@ + "("@ + debug_text(s.last().0@) + ", "@ + tag_text(
            s.last().1,
        ) + ")"@
    }
}

fn append_numbers<T: Number>(out: &mut String, v: &Vec<T>)
    ensures
        final(out)@ == old(out)@ + numbers_text(v@),
{
    let mut i: usize = 0;
    assert(v@.take(0) =~= Seq::empty());
    assert(out@ =~= old(out)@ + numbers_text(v@.take(0)));
    while i < v.len()
        invariant
            i <= v@.len(),
            out@ == old(out)@ + numbers_text(v@.take(i as int)),
        decreases v@.len() - i,
    {
        proof {
            assert(v@.take(i + 1).drop_last() =~= v@.take(i as int));
            assert(v@.take(i + 1).last() == v@[i as int]);
        }
        if i > 0 {
            out.append(", ");
        }
        append_int(out, v[i].wide());
        i += 1;
        assert(out@ =~= old(out)@ + numbers_text(v@.take(i as int)));
    }
    assert(v@.take(i as int) =~= v@);
}

/// Appends a tag in writing.
pub fn append_tag(out: &mut String, n: &Nbt)
    ensures
        final(out)@ == old(out)@ + tag_text(*n),
    decreases n,
{
    match n {
        Nbt::Byte(v) => append_number(out, "Byte(", *v as i128),
        Nbt::Short(v) => append_number(out, "Short(", *v as i128),
        Nbt::Int(v) => append_number(out, "Int(", *v as i128),
        Nbt::Long(v) => append_number(out, "Long(", *v as i128),
        Nbt::Float(_) => out.append("Float(..)"),
        Nbt::Double(_) => out.append("Double(..)"),
        Nbt::ByteArray(v) => {
            out.append("ByteArray([");
            append_numbers(out, v);
            out.append("])");
        },
        Nbt::String(v) => {
            out.append("String(");
            out.append(quoted(v.as_str()).as_str());
            out.append(")");
        },
        Nbt::List(v) => {
            append_number_between(out, "List(NbtList { tag: ", v.tag as i128, ", items: [");
            append_items(out, &v.items);
            out.append("] })");
        },
        Nbt::Compound(v) => {
            out.append("Compound([");
            append_entries(out, v);
            out.append("])");
        },
        Nbt::IntArray(v) => {
            out.append("IntArray([");
            append_numbers(out, v);
            out.append("])");
        },
        Nbt::LongArray(v) => {
            out.append("LongArray([");
            append_numbers(out, v);
            out.append("])");
        },
    }
    assert(out@ =~= old(out)@ + tag_text(*n));
}

fn append_number_between(out: &mut String, before: &str, n: i128, after: &str)
    ensures
        final(out)@ == old(out)@ + before@ + decimal(n as int) + after@,
{
    out.append(before);
    append_int(out, n);
    out.append(after);
}

fn append_number(out: &mut String, kind: &str, n: i128)
    ensures
        final(out)@ == old(out)@ + kind@ + decimal(n as int) + ")"@,
{
    append_number_between(out, kind, n, ")");
}

fn append_items(out: &mut String, items: &Vec<Nbt>)
    ensures
        final(out)@ == old(out)@ + items_text(items@),
    decreases items,
{
    let mut i: usize = 0;
    assert(items@.take(0) =~= Seq::empty());
    assert(out@ =~= old(out)@ + items_text(items@.take(0)));
    while i < items.len()
        invariant
            i <= items@.len(),
            out@ == old(out)@ + items_text(items@.take(i as int)),
        decreases items@.len() - i,
    {
        proof {
            assert(items@.take(i + 1).drop_last() =~= items@.take(i as int));
            assert(items@.take(i + 1).last() == items@[i as int]);
        }
        if i > 0 {
            out.append(", ");
        }
        append_tag(out, &items[i]);
        i += 1;
        assert(out@ =~= old(out)@ + items_text(items@.take(i as int)));
    }
    assert(items@.take(i as int) =~= items@);
}

fn append_entries(out: &mut String, entries: &Vec<(String, Nbt)>)
    ensures
        final(out)@ == old(out)@ + entries_text(entries@),
    decreases entries,
{
    let mut i: usize = 0;
    assert(entries@.take(0) =~= Seq::empty());
    assert(out@ =~= old(out)@ + entries_text(entries@.take(0)));
    while i < entries.len()
        invariant
            i <= entries@.len(),
            out@ == old(out)@ + entries_text(entries@.take(i as int)),
        decreases entries@.len() - i,
    {
        let ghost entry = entries@[i as int];
        proof {
            assert(entries@.take(i + 1).drop_last() =~= entries@.take(i as int));
            assert(entries@.take(i + 1).last() == entry);
            assert(decreases_to!(entry => entry.1));
        }
        if i > 0 {
            out.append(", ");
        }
        out.append("(");
        out.append(quoted(entries[i].0.as_str()).as_str());
        out.append(", ");
        append_tag(out, &entries[i].1);
        out.append(")");
        i += 1;
        assert(out@ =~= old(out)@ + entries_text(entries@.take(i as int)));
    }
    assert(entries@.take(i as int) =~= entries@);
}

} // verus!
