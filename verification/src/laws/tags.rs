//! Tags as bytes, and hashes over them.
use crate::minecraft::fingerprint::{
    container_bytes, fnv, hash_container, le_bytes, write_len, Fnv64,
};
use crate::minecraft::nbt::Nbt;
use crate::minecraft::nbt_wire::{
    alike, alike_entries, alike_items, encode_tag, entries_payload, int_items, items_payload,
    long_items, payload, same_tag,
};
use crate::minecraft::world::{ContainerModel, PalettedContainer};
use crate::protocol::big_endian::be_bytes;
use std::sync::Arc;
use vstd::prelude::*;
use vstd::utf8::encode_utf8;

verus! {

/// A tag is its number and then its payload. Whole numbers come high byte first, in
/// two's complement, fractions by their bits, and a text behind the length of its
/// bytes.
pub proof fn law_tags_are_written_behind_their_number(tag: &Nbt, out: Option<Vec<u8>>)
    requires
        call_ensures(encode_tag, (tag,), out),
    ensures
        tag matches Nbt::Byte(v) ==> (out matches Some(b) && b@ == seq![1u8, *v as u8]),
        tag matches Nbt::Short(v) ==> (out matches Some(b) && b@ == seq![
            2u8,
            ((*v as u16) / 256) as u8,
            ((*v as u16) % 256) as u8,
        ]),
        tag matches Nbt::Int(v) ==> (out matches Some(b) && b@ == seq![
            3u8,
            ((*v as u32) / 0x100_0000) as u8,
            ((*v as u32) / 0x1_0000 % 256) as u8,
            ((*v as u32) / 256 % 256) as u8,
            ((*v as u32) % 256) as u8,
        ]),
        tag matches Nbt::Float(v) ==> (out matches Some(b) && b@ == seq![
            5u8,
            (*v / 0x100_0000) as u8,
            (*v / 0x1_0000 % 256) as u8,
            (*v / 256 % 256) as u8,
            (*v % 256) as u8,
        ]),
        tag matches Nbt::String(s) ==> encode_utf8(s@).len() <= 65535 ==> (out matches Some(b) && b@
            == seq![
            8u8,
            (encode_utf8(s@).len() / 256) as u8,
            (encode_utf8(s@).len() % 256) as u8,
        ] + encode_utf8(s@)),
        tag matches Nbt::String(s) ==> encode_utf8(s@).len() > 65535 ==> out is None,
        out matches Some(b) ==> b@.len() >= 1 && b@[0] == tag.wire_id(),
{
    match tag {
        Nbt::Byte(v) => {
            let n = (*v as u8) as nat;
            reveal_with_fuel(crate::protocol::big_endian::be_bytes, 2);
            assert(out->0@ =~= seq![1u8, *v as u8]);
        },
        Nbt::Short(v) => {
            crate::laws::wire::law_high_bytes_come_first(0, 0, 0, 0, (*v as u16) as nat);
            assert(out->0@ =~= seq![
                2u8,
                ((*v as u16) / 256) as u8,
                ((*v as u16) % 256) as u8,
            ]);
        },
        Nbt::Int(v) => {
            crate::laws::wire::law_high_bytes_come_first(0, 0, 0, 0, (*v as u32) as nat);
            assert(out->0@ =~= seq![
                3u8,
                ((*v as u32) / 0x100_0000) as u8,
                ((*v as u32) / 0x1_0000 % 256) as u8,
                ((*v as u32) / 256 % 256) as u8,
                ((*v as u32) % 256) as u8,
            ]);
        },
        Nbt::Float(v) => {
            crate::laws::wire::law_high_bytes_come_first(0, 0, 0, 0, *v as nat);
            assert(out->0@ =~= seq![
                5u8,
                (*v / 0x100_0000) as u8,
                (*v / 0x1_0000 % 256) as u8,
                (*v / 256 % 256) as u8,
                (*v % 256) as u8,
            ]);
        },
        Nbt::String(s) => {
            let n = encode_utf8(s@).len();
            if n <= 65535 {
                crate::laws::wire::law_high_bytes_come_first(0, 0, 0, 0, n);
                assert(out->0@ =~= seq![8u8, (n / 256) as u8, (n % 256) as u8] + encode_utf8(s@));
            }
        },
        _ => {},
    }
}

/// Elements of a list and entries of a compound come one after the other: one more
/// adds its bytes at the end, an entry with its number, its name and its payload. A
/// compound ends with nought, and a list starts with the number of its elements'
/// kind and how many there are.
pub proof fn law_collections_are_written_in_order(
    items: Seq<Nbt>,
    entries: Seq<(String, Nbt)>,
    more: Nbt,
    name: String,
    whole: Nbt,
)
    ensures
        items_payload(items) is Some && payload(more) is Some ==> items_payload(items.push(more))
            == Some(items_payload(items)->0 + payload(more)->0),
        entries_payload(entries) is Some && payload(more) is Some && encode_utf8(name@).len()
            <= 65535 ==> entries_payload(entries.push((name, more))) == Some(
            entries_payload(entries)->0 + (seq![
                more.wire_id(),
                (encode_utf8(name@).len() / 256) as u8,
                (encode_utf8(name@).len() % 256) as u8,
            ] + encode_utf8(name@) + payload(more)->0),
        ),
        whole matches Nbt::Compound(v) ==> entries_payload(v@) is Some ==> payload(whole) == Some(
            entries_payload(v@)->0.push(0u8),
        ),
        whole matches Nbt::List(v) ==> items_payload(v.items@) is Some && v.items@.len()
            <= 0x7FFF_FFFF ==> payload(whole) == Some(
            seq![
                v.tag,
                (v.items@.len() / 0x100_0000) as u8,
                (v.items@.len() / 0x1_0000 % 256) as u8,
                (v.items@.len() / 256 % 256) as u8,
                (v.items@.len() % 256) as u8,
            ] + items_payload(v.items@)->0,
        ),
{
    assert(items.push(more).drop_last() =~= items);
    assert(entries.push((name, more)).drop_last() =~= entries);
    let n = encode_utf8(name@).len();
    if n <= 65535 {
        crate::laws::wire::law_high_bytes_come_first(0, 0, 0, 0, n);
    }
    if entries_payload(entries) is Some && payload(more) is Some && n <= 65535 {
        let head = seq![more.wire_id(), (n / 256) as u8, (n % 256) as u8];
        assert(seq![more.wire_id()] + (seq![(n / 256) as u8, (n % 256) as u8] + encode_utf8(name@))
            =~= head + encode_utf8(name@));
    }
    if let Nbt::Compound(v) = whole {
        if entries_payload(v@) is Some {
            assert(entries_payload(v@)->0 + seq![0u8] =~= entries_payload(v@)->0.push(0u8));
        }
    }
    if let Nbt::List(v) = whole {
        let k = v.items@.len();
        if items_payload(v.items@) is Some && k <= 0x7FFF_FFFF {
            crate::laws::wire::law_high_bytes_come_first(0, 0, 0, 0, k);
            assert(payload(whole)->0 =~= seq![
                v.tag,
                (k / 0x100_0000) as u8,
                (k / 0x1_0000 % 256) as u8,
                (k / 256 % 256) as u8,
                (k % 256) as u8,
            ] + items_payload(v.items@)->0);
        }
    }
}

/// Tags are alike only where they are of one kind; whole numbers and texts where they
/// are the same, lists and compounds where they are alike one by one.
pub proof fn law_alike_tags_hold_the_same(a: &Nbt, b: &Nbt, r: bool)
    requires
        call_ensures(same_tag, (a, b), r),
    ensures
        r ==> a.wire_id() == b.wire_id(),
        a matches Nbt::Int(x) ==> (r <==> *b == Nbt::Int(*x)),
        a matches Nbt::Byte(x) ==> (r <==> *b == Nbt::Byte(*x)),
        a matches Nbt::Long(x) ==> (r <==> *b == Nbt::Long(*x)),
        a matches Nbt::String(x) ==> (r <==> (b matches Nbt::String(y) && x@ == y@)),
        a matches Nbt::List(x) ==> (b matches Nbt::List(y) ==> (r <==> x.tag == y.tag
            && x.items@.len() == y.items@.len() && forall|i: int|
            0 <= i < x.items@.len() ==> alike(#[trigger] x.items@[i], y.items@[i]))),
        a matches Nbt::Compound(x) ==> (b matches Nbt::Compound(y) ==> (r <==> x@.len() == y@.len()
            && forall|i: int|
            0 <= i < x@.len() ==> (#[trigger] x@[i]).0@ == y@[i].0@ && alike(x@[i].1, y@[i].1))),
{
    match (a, b) {
        (Nbt::List(x), Nbt::List(y)) => lemma_alike_items(x.items@, y.items@),
        (Nbt::Compound(x), Nbt::Compound(y)) => lemma_alike_entries(x@, y@),
        _ => {},
    }
}

proof fn lemma_alike_items(a: Seq<Nbt>, b: Seq<Nbt>)
    ensures
        alike_items(a, b) <==> a.len() == b.len() && forall|i: int|
            0 <= i < a.len() ==> alike(#[trigger] a[i], b[i]),
    decreases a.len(),
{
    if a.len() == b.len() && a.len() > 0 {
        let (p, q) = (a.drop_last(), b.drop_last());
        lemma_alike_items(p, q);
        assert forall|i: int| 0 <= i < p.len() implies p[i] == a[i] && q[i] == b[i] by {}
        let last = a.len() - 1;
        if alike_items(a, b) {
            assert forall|i: int| 0 <= i < a.len() implies alike(#[trigger] a[i], b[i]) by {
                if i < last {
                    assert(alike(p[i], q[i]));
                }
            }
        } else if forall|i: int| 0 <= i < a.len() ==> alike(#[trigger] a[i], b[i]) {
            assert forall|i: int| 0 <= i < p.len() implies alike(#[trigger] p[i], q[i]) by {
                assert(alike(a[i], b[i]));
            }
            assert(alike(a[last], b[last]));
        }
    }
}

proof fn lemma_alike_entries(a: Seq<(String, Nbt)>, b: Seq<(String, Nbt)>)
    ensures
        alike_entries(a, b) <==> a.len() == b.len() && forall|i: int|
            0 <= i < a.len() ==> (#[trigger] a[i]).0@ == b[i].0@ && alike(a[i].1, b[i].1),
    decreases a.len(),
{
    if a.len() == b.len() && a.len() > 0 {
        let (p, q) = (a.drop_last(), b.drop_last());
        lemma_alike_entries(p, q);
        assert forall|i: int| 0 <= i < p.len() implies p[i] == a[i] && q[i] == b[i] by {}
        let last = a.len() - 1;
        if alike_entries(a, b) {
            assert forall|i: int| 0 <= i < a.len() implies (#[trigger] a[i]).0@ == b[i].0@ && alike(
                a[i].1,
                b[i].1,
            ) by {
                if i < last {
                    assert(p[i].0@ == q[i].0@);
                }
            }
        } else if forall|i: int|
            0 <= i < a.len() ==> (#[trigger] a[i]).0@ == b[i].0@ && alike(a[i].1, b[i].1) {
            assert forall|i: int| 0 <= i < p.len() implies (#[trigger] p[i]).0@ == q[i].0@ && alike(
                p[i].1,
                q[i].1,
            ) by {
                assert(a[i].0@ == b[i].0@);
            }
            assert(a[last].0@ == b[last].0@);
        }
    }
}

/// A hash starts at its offset, and each byte is mixed in and multiplied by the prime.
pub proof fn law_hashes_mix_byte_by_byte(
    start: Fnv64,
    h: &mut Fnv64,
    byte: u8,
    n: &mut Fnv64,
    number: u64,
)
    requires
        call_ensures(Fnv64::new, (), start),
        call_ensures(Fnv64::write_byte, (h, byte), ()),
        call_ensures(Fnv64::write_le, (n, number, 4usize), ()),
    ensures
        start.0 == 0xcbf2_9ce4_8422_2325,
        final(h).0 == (old(h).0 ^ (byte as u64)).wrapping_mul(0x100_0000_01b3),
        final(n).0 == fnv(
            old(n).0,
            seq![
                (number % 256) as u8,
                (number / 256 % 256) as u8,
                (number / 0x1_0000 % 256) as u8,
                (number / 0x100_0000 % 256) as u8,
            ],
        ),
{
    reveal_with_fuel(fnv, 2);
    assert(seq![byte].drop_last() =~= Seq::<u8>::empty());
    law_low_bytes_come_first(number as nat);
}

/// Numbers in a hash come low byte first.
pub proof fn law_low_bytes_come_first(v: nat)
    ensures
        le_bytes(v, 2) == seq![(v % 256) as u8, (v / 256 % 256) as u8],
        le_bytes(v, 4) == seq![
            (v % 256) as u8,
            (v / 256 % 256) as u8,
            (v / 0x1_0000 % 256) as u8,
            (v / 0x100_0000 % 256) as u8,
        ],
{
    reveal_with_fuel(le_bytes, 5);
    assert(v / 256 / 256 == v / 0x1_0000 && v / 256 / 256 / 256 == v / 0x100_0000);
    assert(le_bytes(v, 2) =~= seq![(v % 256) as u8, (v / 256 % 256) as u8]);
    assert(le_bytes(v, 4) =~= seq![
        (v % 256) as u8,
        (v / 256 % 256) as u8,
        (v / 0x1_0000 % 256) as u8,
        (v / 0x100_0000 % 256) as u8,
    ]);
}

/// A hash of a container starts with its form, so that no two forms are hashed alike.
pub proof fn law_containers_are_hashed_by_form(
    h: &mut Fnv64,
    c: &PalettedContainer,
)
    requires
        call_ensures(hash_container, (h, c), ()),
    ensures
        final(h).0 == fnv(old(h).0, container_bytes(c@)),
        c@ is Single ==> container_bytes(c@)[0] == 0 && container_bytes(c@).len() == 5,
        c@ matches ContainerModel::Indirect { bits, .. } ==> container_bytes(c@)[0] == 1
            && container_bytes(c@)[1] == bits,
        c@ matches ContainerModel::Direct { bits, .. } ==> container_bytes(c@)[0] == 2
            && container_bytes(c@)[1] == bits,
{
    if let ContainerModel::Single(v) = c@ {
        law_low_bytes_come_first(v as nat);
    }
}

/// A length is hashed in eight bytes.
pub proof fn law_lengths_are_hashed_in_eight_bytes(h: &mut Fnv64, n: usize)
    requires
        call_ensures(write_len, (h, n), ()),
    ensures
        final(h).0 == fnv(old(h).0, le_bytes(n as nat, 8)),
        le_bytes(n as nat, 8).len() == 8,
{
    reveal_with_fuel(le_bytes, 9);
}

/// Longs and doubles take eight bytes, and arrays come behind their count of four: one
/// more element adds its bytes at the end.
pub proof fn law_longs_and_arrays_are_written_out(
    n: i64,
    bits: u64,
    bytes: Arc<Vec<i8>>,
    ints: Arc<Vec<i32>>,
    longs: Arc<Vec<i64>>,
    s: Seq<i32>,
    i: i32,
    t: Seq<i64>,
)
    ensures
        payload(Nbt::Long(n)) == Some(be_bytes((n as u64) as nat, 8)),
        payload(Nbt::Double(bits)) == Some(be_bytes(bits as nat, 8)),
        bytes@.len() <= 0x7FFF_FFFF ==> payload(Nbt::ByteArray(bytes)) == Some(
            be_bytes(bytes@.len(), 4) + Seq::new(bytes@.len(), |k: int| bytes@[k] as u8),
        ),
        ints@.len() <= 0x7FFF_FFFF ==> payload(Nbt::IntArray(ints)) == Some(
            be_bytes(ints@.len(), 4) + int_items(ints@),
        ),
        longs@.len() <= 0x7FFF_FFFF ==> payload(Nbt::LongArray(longs)) == Some(
            be_bytes(longs@.len(), 4) + long_items(longs@),
        ),
        int_items(s.push(i)) == int_items(s) + be_bytes((i as u32) as nat, 4),
        long_items(t.push(n)) == long_items(t) + be_bytes((n as u64) as nat, 8),
{
    assert(s.push(i).drop_last() =~= s);
    assert(t.push(n).drop_last() =~= t);
}

} // verus!
