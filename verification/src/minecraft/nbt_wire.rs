//! How tags are written, and when two of them are alike.
use crate::float_bits::{doubles_equal, same_double, same_single, singles_equal};
use crate::minecraft::nbt::Nbt;
use crate::protocol::big_endian::{be_bytes, to_be_vec};
use crate::text_build::same_text;
use vstd::prelude::*;
use vstd::std_specs::cmp::PartialEqSpecImpl;
use vstd::utf8::encode_utf8;

verus! {

/// A text behind the length of its UTF-8 form, which two bytes must hold.
pub open spec fn short_text(s: Seq<char>) -> Option<Seq<u8>> {
    let bytes = encode_utf8(s);
    if bytes.len() <= u16::MAX {
        Some(be_bytes(bytes.len(), 2) + bytes)
    } else {
        None
    }
}

/// The count of a collection, which four bytes must hold.
pub open spec fn count_bytes(n: nat) -> Option<Seq<u8>> {
    if n <= i32::MAX {
        Some(be_bytes(n, 4))
    } else {
        None
    }
}

/// One after the other, where both can be written.
pub open spec fn followed(a: Option<Seq<u8>>, b: Option<Seq<u8>>) -> Option<Seq<u8>> {
    match (a, b) {
        (Some(a), Some(b)) => Some(a + b),
        _ => None,
    }
}

/// Bytes one by one.
pub open spec fn byte_items(s: Seq<i8>) -> Seq<u8> {
    Seq::new(s.len(), |i: int| s[i] as u8)
}

/// Ints one after the other.
pub open spec fn int_items(s: Seq<i32>) -> Seq<u8>
    decreases s.len(),
{
    if s.len() == 0 {
        Seq::empty()
    } else {
        int_items(s.drop_last()) + be_bytes((s.last() as u32) as nat, 4)
    }
}

/// Longs one after the other.
pub open spec fn long_items(s: Seq<i64>) -> Seq<u8>
    decreases s.len(),
{
    if s.len() == 0 {
        Seq::empty()
    } else {
        long_items(s.drop_last()) + be_bytes((s.last() as u64) as nat, 8)
    }
}

/// The bytes of a tag without its id; none where a length does not fit.
pub open spec fn payload(n: Nbt) -> Option<Seq<u8>>
    decreases n,
{
    match n {
        Nbt::Byte(v) => Some(be_bytes((v as u8) as nat, 1)),
        Nbt::Short(v) => Some(be_bytes((v as u16) as nat, 2)),
        Nbt::Int(v) => Some(be_bytes((v as u32) as nat, 4)),
        Nbt::Long(v) => Some(be_bytes((v as u64) as nat, 8)),
        Nbt::Float(v) => Some(be_bytes(v as nat, 4)),
        Nbt::Double(v) => Some(be_bytes(v as nat, 8)),
        Nbt::ByteArray(v) => followed(count_bytes(v@.len()), Some(byte_items(v@))),
        Nbt::String(v) => short_text(v@),
        Nbt::List(v) => followed(
            followed(Some(seq![v.tag]), count_bytes(v.items@.len())),
            items_payload(v.items@),
        ),
        Nbt::Compound(v) => followed(entries_payload(v@), Some(seq![0u8])),
        Nbt::IntArray(v) => followed(count_bytes(v@.len()), Some(int_items(v@))),
        Nbt::LongArray(v) => followed(count_bytes(v@.len()), Some(long_items(v@))),
    }
}

/// The elements of a list, one after the other.
pub open spec fn items_payload(s: Seq<Nbt>) -> Option<Seq<u8>>
    decreases s,
{
    if s.len() == 0 {
        Some(Seq::empty())
    } else {
        followed(items_payload(s.drop_last()), payload(s.last()))
    }
}

/// The entries of a compound: id, name and payload of each.
pub open spec fn entries_payload(s: Seq<(String, Nbt)>) -> Option<Seq<u8>>
    decreases s,
{
    if s.len() == 0 {
        Some(Seq::empty())
    } else {
        followed(
            entries_payload(s.drop_last()),
            followed(
                followed(Some(seq![s.last().1.wire_id()]), short_text(s.last().0@)),
                payload(s.last().1),
            ),
        )
    }
}

/// A tag behind its id, without a name.
pub open spec fn tag_bytes(n: Nbt) -> Option<Seq<u8>> {
    followed(Some(seq![n.wire_id()]), payload(n))
}

/// What a writing function promises: it appends, or says that it cannot.
pub open spec fn writes(
    before: Seq<u8>,
    after: Seq<u8>,
    done: bool,
    want: Option<Seq<u8>>,
) -> bool {
    match want {
        Some(bytes) => done && after == before + bytes,
        None => !done,
    }
}

fn write_number(out: &mut Vec<u8>, v: u64, n: usize)
    requires
        n <= 8,
    ensures
        final(out)@ == old(out)@ + be_bytes(v as nat, n as nat),
{
    let mut bytes = to_be_vec(v as u128, n);
    out.append(&mut bytes);
}

fn write_text(out: &mut Vec<u8>, s: &str) -> (done: bool)
    ensures
        writes(old(out)@, final(out)@, done, short_text(s@)),
{
    let bytes = s.as_bytes();
    let n: usize = bytes.len();
    if n > 0xFFFF {
        return false;
    }
    write_number(out, n as u64, 2);
    out.extend_from_slice(bytes);
    assert(out@ =~= old(out)@ + (be_bytes(n as nat, 2) + bytes@));
    true
}

fn write_count(out: &mut Vec<u8>, n: usize) -> (done: bool)
    ensures
        writes(old(out)@, final(out)@, done, count_bytes(n as nat)),
{
    if n > 0x7FFF_FFFF {
        return false;
    }
    write_number(out, n as u64, 4);
    true
}

fn write_bytes(out: &mut Vec<u8>, items: &Vec<i8>)
    ensures
        final(out)@ == old(out)@ + byte_items(items@),
{
    let mut i: usize = 0;
    assert(out@ =~= old(out)@ + byte_items(items@.take(0)));
    while i < items.len()
        invariant
            i <= items@.len(),
            out@ == old(out)@ + byte_items(items@.take(i as int)),
        decreases items@.len() - i,
    {
        out.push(items[i] as u8);
        i += 1;
        assert(out@ =~= old(out)@ + byte_items(items@.take(i as int)));
    }
    assert(items@.take(i as int) =~= items@);
}

fn write_ints(out: &mut Vec<u8>, items: &Vec<i32>)
    ensures
        final(out)@ == old(out)@ + int_items(items@),
{
    let mut i: usize = 0;
    assert(out@ =~= old(out)@ + int_items(items@.take(0)));
    while i < items.len()
        invariant
            i <= items@.len(),
            out@ == old(out)@ + int_items(items@.take(i as int)),
        decreases items@.len() - i,
    {
        write_number(out, items[i] as u32 as u64, 4);
        i += 1;
        assert(items@.take(i as int).drop_last() =~= items@.take(i - 1));
        assert(out@ =~= old(out)@ + int_items(items@.take(i as int)));
    }
    assert(items@.take(i as int) =~= items@);
}

fn write_longs(out: &mut Vec<u8>, items: &Vec<i64>)
    ensures
        final(out)@ == old(out)@ + long_items(items@),
{
    let mut i: usize = 0;
    assert(out@ =~= old(out)@ + long_items(items@.take(0)));
    while i < items.len()
        invariant
            i <= items@.len(),
            out@ == old(out)@ + long_items(items@.take(i as int)),
        decreases items@.len() - i,
    {
        write_number(out, items[i] as u64, 8);
        i += 1;
        assert(items@.take(i as int).drop_last() =~= items@.take(i - 1));
        assert(out@ =~= old(out)@ + long_items(items@.take(i as int)));
    }
    assert(items@.take(i as int) =~= items@);
}

fn write_payload(out: &mut Vec<u8>, n: &Nbt) -> (done: bool)
    ensures
        writes(old(out)@, final(out)@, done, payload(*n)),
    decreases n,
{
    let ghost start = out@;
    match n {
        Nbt::Byte(v) => {
            write_number(out, *v as u8 as u64, 1);
            true
        },
        Nbt::Short(v) => {
            write_number(out, *v as u16 as u64, 2);
            true
        },
        Nbt::Int(v) => {
            write_number(out, *v as u32 as u64, 4);
            true
        },
        Nbt::Long(v) => {
            write_number(out, *v as u64, 8);
            true
        },
        Nbt::Float(v) => {
            write_number(out, *v as u64, 4);
            true
        },
        Nbt::Double(v) => {
            write_number(out, *v, 8);
            true
        },
        Nbt::ByteArray(v) => {
            if !write_count(out, v.len()) {
                return false;
            }
            write_bytes(out, v);
            assert(out@ =~= start + payload(*n)->0);
            true
        },
        Nbt::String(v) => write_text(out, v.as_str()),
        Nbt::List(v) => {
            out.push(v.tag);
            assert(out@ =~= start + seq![v.tag]);
            if !write_count(out, v.items.len()) {
                return false;
            }
            let done = write_items(out, &v.items);
            proof {
                if done {
                    assert(out@ =~= start + payload(*n)->0);
                }
            }
            done
        },
        Nbt::Compound(v) => {
            if !write_entries(out, v) {
                return false;
            }
            out.push(0);
            assert(out@ =~= start + payload(*n)->0);
            true
        },
        Nbt::IntArray(v) => {
            if !write_count(out, v.len()) {
                return false;
            }
            write_ints(out, v);
            assert(out@ =~= start + payload(*n)->0);
            true
        },
        Nbt::LongArray(v) => {
            if !write_count(out, v.len()) {
                return false;
            }
            write_longs(out, v);
            assert(out@ =~= start + payload(*n)->0);
            true
        },
    }
}

/// Where a beginning cannot be written, the whole cannot.
proof fn lemma_items_stop(s: Seq<Nbt>, i: int)
    requires
        0 <= i <= s.len(),
        items_payload(s.take(i)) is None,
    ensures
        items_payload(s) is None,
    decreases s.len() - i,
{
    if i < s.len() {
        assert(s.take(i + 1).drop_last() =~= s.take(i));
        lemma_items_stop(s, i + 1);
    } else {
        assert(s.take(i) =~= s);
    }
}

/// Where a beginning cannot be written, the whole cannot.
proof fn lemma_entries_stop(s: Seq<(String, Nbt)>, i: int)
    requires
        0 <= i <= s.len(),
        entries_payload(s.take(i)) is None,
    ensures
        entries_payload(s) is None,
    decreases s.len() - i,
{
    if i < s.len() {
        assert(s.take(i + 1).drop_last() =~= s.take(i));
        lemma_entries_stop(s, i + 1);
    } else {
        assert(s.take(i) =~= s);
    }
}

fn write_items(out: &mut Vec<u8>, items: &Vec<Nbt>) -> (done: bool)
    ensures
        writes(old(out)@, final(out)@, done, items_payload(items@)),
    decreases items,
{
    let mut i: usize = 0;
    assert(items@.take(0) =~= Seq::empty());
    assert(out@ =~= old(out)@ + Seq::<u8>::empty());
    while i < items.len()
        invariant
            i <= items@.len(),
            items_payload(items@.take(i as int)) is Some,
            out@ == old(out)@ + items_payload(items@.take(i as int))->0,
        decreases items@.len() - i,
    {
        proof {
            let next = items@.take(i + 1);
            assert(next.drop_last() =~= items@.take(i as int));
            assert(next.last() == items@[i as int]);
            if payload(items@[i as int]) is None {
                lemma_items_stop(items@, i + 1);
            }
        }
        if !write_payload(out, &items[i]) {
            return false;
        }
        i += 1;
        assert(out@ =~= old(out)@ + items_payload(items@.take(i as int))->0);
    }
    assert(items@.take(i as int) =~= items@);
    true
}

fn write_entries(out: &mut Vec<u8>, entries: &Vec<(String, Nbt)>) -> (done: bool)
    ensures
        writes(old(out)@, final(out)@, done, entries_payload(entries@)),
    decreases entries,
{
    let mut i: usize = 0;
    assert(entries@.take(0) =~= Seq::empty());
    assert(out@ =~= old(out)@ + Seq::<u8>::empty());
    while i < entries.len()
        invariant
            i <= entries@.len(),
            entries_payload(entries@.take(i as int)) is Some,
            out@ == old(out)@ + entries_payload(entries@.take(i as int))->0,
        decreases entries@.len() - i,
    {
        let ghost entry = entries@[i as int];
        proof {
            let next = entries@.take(i + 1);
            assert(next.drop_last() =~= entries@.take(i as int));
            assert(next.last() == entry);
            if payload(entry.1) is None || short_text(entry.0@) is None {
                lemma_entries_stop(entries@, i + 1);
            }
            assert(decreases_to!(entry => entry.1));
        }
        out.push(entries[i].1.tag_id());
        if !write_text(out, entries[i].0.as_str()) {
            return false;
        }
        if !write_payload(out, &entries[i].1) {
            return false;
        }
        i += 1;
        assert(out@ =~= old(out)@ + entries_payload(entries@.take(i as int))->0);
    }
    assert(entries@.take(i as int) =~= entries@);
    true
}

/// The bytes of a tag behind its id; none where a length does not fit.
pub fn encode_tag(n: &Nbt) -> (out: Option<Vec<u8>>)
    ensures
        out is Some <==> tag_bytes(*n) is Some,
        out matches Some(bytes) ==> tag_bytes(*n) == Some(bytes@),
{
    let mut out: Vec<u8> = Vec::new();
    out.push(n.tag_id());
    if write_payload(&mut out, n) {
        assert(out@ =~= tag_bytes(*n)->0);
        Some(out)
    } else {
        None
    }
}

/// Whether two tags are alike: the same tags, texts and numbers, floating-point
/// numbers compared as numbers.
pub open spec fn alike(a: Nbt, b: Nbt) -> bool
    decreases a,
{
    match (a, b) {
        (Nbt::Byte(x), Nbt::Byte(y)) => x == y,
        (Nbt::Short(x), Nbt::Short(y)) => x == y,
        (Nbt::Int(x), Nbt::Int(y)) => x == y,
        (Nbt::Long(x), Nbt::Long(y)) => x == y,
        (Nbt::Float(x), Nbt::Float(y)) => singles_equal(x, y),
        (Nbt::Double(x), Nbt::Double(y)) => doubles_equal(x, y),
        (Nbt::ByteArray(x), Nbt::ByteArray(y)) => x@ == y@,
        (Nbt::String(x), Nbt::String(y)) => x@ == y@,
        (Nbt::List(x), Nbt::List(y)) => x.tag == y.tag && alike_items(x.items@, y.items@),
        (Nbt::Compound(x), Nbt::Compound(y)) => alike_entries(x@, y@),
        (Nbt::IntArray(x), Nbt::IntArray(y)) => x@ == y@,
        (Nbt::LongArray(x), Nbt::LongArray(y)) => x@ == y@,
        _ => false,
    }
}

/// Whether elements are alike, one by one.
pub open spec fn alike_items(a: Seq<Nbt>, b: Seq<Nbt>) -> bool
    decreases a,
{
    if a.len() != b.len() {
        false
    } else if a.len() == 0 {
        true
    } else {
        alike_items(a.drop_last(), b.drop_last()) && alike(a.last(), b.last())
    }
}

/// Whether entries are alike, one by one.
pub open spec fn alike_entries(a: Seq<(String, Nbt)>, b: Seq<(String, Nbt)>) -> bool
    decreases a,
{
    if a.len() != b.len() {
        false
    } else if a.len() == 0 {
        true
    } else {
        alike_entries(a.drop_last(), b.drop_last()) && a.last().0@ == b.last().0@ && alike(
            a.last().1,
            b.last().1,
        )
    }
}

/// Whether two tags are alike.
pub fn same_tag(a: &Nbt, b: &Nbt) -> (r: bool)
    ensures
        r == alike(*a, *b),
    decreases a,
{
    match (a, b) {
        (Nbt::Byte(x), Nbt::Byte(y)) => *x == *y,
        (Nbt::Short(x), Nbt::Short(y)) => *x == *y,
        (Nbt::Int(x), Nbt::Int(y)) => *x == *y,
        (Nbt::Long(x), Nbt::Long(y)) => *x == *y,
        (Nbt::Float(x), Nbt::Float(y)) => same_single(*x, *y),
        (Nbt::Double(x), Nbt::Double(y)) => same_double(*x, *y),
        (Nbt::ByteArray(x), Nbt::ByteArray(y)) => same_numbers(x, y),
        (Nbt::String(x), Nbt::String(y)) => same_text(x.as_str(), y.as_str()),
        (Nbt::List(x), Nbt::List(y)) => x.tag == y.tag && same_items(&x.items, &y.items),
        (Nbt::Compound(x), Nbt::Compound(y)) => same_entries(x, y),
        (Nbt::IntArray(x), Nbt::IntArray(y)) => same_numbers(x, y),
        (Nbt::LongArray(x), Nbt::LongArray(y)) => same_numbers(x, y),
        _ => false,
    }
}

/// Elements that are alike are so in every beginning.
proof fn lemma_alike_items(a: Seq<Nbt>, b: Seq<Nbt>, i: int)
    requires
        a.len() == b.len(),
        0 <= i <= a.len(),
        !alike_items(a.take(i), b.take(i)),
    ensures
        !alike_items(a, b),
    decreases a.len() - i,
{
    if i < a.len() {
        assert(a.take(i + 1).drop_last() =~= a.take(i));
        assert(b.take(i + 1).drop_last() =~= b.take(i));
        lemma_alike_items(a, b, i + 1);
    } else {
        assert(a.take(i) =~= a && b.take(i) =~= b);
    }
}

/// Entries that are alike are so in every beginning.
proof fn lemma_alike_entries(a: Seq<(String, Nbt)>, b: Seq<(String, Nbt)>, i: int)
    requires
        a.len() == b.len(),
        0 <= i <= a.len(),
        !alike_entries(a.take(i), b.take(i)),
    ensures
        !alike_entries(a, b),
    decreases a.len() - i,
{
    if i < a.len() {
        assert(a.take(i + 1).drop_last() =~= a.take(i));
        assert(b.take(i + 1).drop_last() =~= b.take(i));
        lemma_alike_entries(a, b, i + 1);
    } else {
        assert(a.take(i) =~= a && b.take(i) =~= b);
    }
}

fn same_items(a: &Vec<Nbt>, b: &Vec<Nbt>) -> (r: bool)
    ensures
        r == alike_items(a@, b@),
    decreases a,
{
    if a.len() != b.len() {
        return false;
    }
    let mut i: usize = 0;
    assert(a@.take(0) =~= Seq::empty() && b@.take(0) =~= Seq::empty());
    while i < a.len()
        invariant
            i <= a@.len(),
            a@.len() == b@.len(),
            alike_items(a@.take(i as int), b@.take(i as int)),
        decreases a@.len() - i,
    {
        proof {
            assert(a@.take(i + 1).drop_last() =~= a@.take(i as int));
            assert(b@.take(i + 1).drop_last() =~= b@.take(i as int));
            assert(a@.take(i + 1).last() == a@[i as int]);
            assert(b@.take(i + 1).last() == b@[i as int]);
            if !alike(a@[i as int], b@[i as int]) {
                lemma_alike_items(a@, b@, i + 1);
            }
        }
        if !same_tag(&a[i], &b[i]) {
            return false;
        }
        i += 1;
    }
    assert(a@.take(i as int) =~= a@ && b@.take(i as int) =~= b@);
    true
}

fn same_entries(a: &Vec<(String, Nbt)>, b: &Vec<(String, Nbt)>) -> (r: bool)
    ensures
        r == alike_entries(a@, b@),
    decreases a,
{
    if a.len() != b.len() {
        return false;
    }
    let mut i: usize = 0;
    assert(a@.take(0) =~= Seq::empty() && b@.take(0) =~= Seq::empty());
    while i < a.len()
        invariant
            i <= a@.len(),
            a@.len() == b@.len(),
            alike_entries(a@.take(i as int), b@.take(i as int)),
        decreases a@.len() - i,
    {
        let ghost entry = a@[i as int];
        proof {
            assert(a@.take(i + 1).drop_last() =~= a@.take(i as int));
            assert(b@.take(i + 1).drop_last() =~= b@.take(i as int));
            assert(a@.take(i + 1).last() == a@[i as int]);
            assert(b@.take(i + 1).last() == b@[i as int]);
            if !alike(a@[i as int].1, b@[i as int].1) || a@[i as int].0@ != b@[i as int].0@ {
                lemma_alike_entries(a@, b@, i + 1);
            }
            assert(decreases_to!(entry => entry.1));
        }
        if !same_text(a[i].0.as_str(), b[i].0.as_str()) {
            return false;
        }
        if !same_tag(&a[i].1, &b[i].1) {
            return false;
        }
        i += 1;
    }
    assert(a@.take(i as int) =~= a@ && b@.take(i as int) =~= b@);
    true
}

impl PartialEq for Nbt {
    fn eq(&self, other: &Self) -> (r: bool) {
        same_tag(self, other)
    }
}

impl PartialEqSpecImpl for Nbt {
    open spec fn obeys_eq_spec() -> bool {
        true
    }

    open spec fn eq_spec(&self, other: &Self) -> bool {
        alike(*self, *other)
    }
}

/// A whole number of any width.
pub trait Number: Copy {
    /// Whether two numbers are the same.
    fn same(self, other: Self) -> (r: bool)
        ensures
            r == (self == other),
    ;

    /// The number itself.
    spec fn value(self) -> int;

    /// The number in its widest form.
    fn wide(self) -> (n: i128)
        ensures
            n == self.value(),
    ;
}

impl Number for i8 {
    fn same(self, other: Self) -> (r: bool) {
        self == other
    }

    open spec fn value(self) -> int {
        self as int
    }

    fn wide(self) -> (n: i128) {
        self as i128
    }
}

impl Number for u8 {
    fn same(self, other: Self) -> (r: bool) {
        self == other
    }

    open spec fn value(self) -> int {
        self as int
    }

    fn wide(self) -> (n: i128) {
        self as i128
    }
}

impl Number for i32 {
    fn same(self, other: Self) -> (r: bool) {
        self == other
    }

    open spec fn value(self) -> int {
        self as int
    }

    fn wide(self) -> (n: i128) {
        self as i128
    }
}

impl Number for u32 {
    fn same(self, other: Self) -> (r: bool) {
        self == other
    }

    open spec fn value(self) -> int {
        self as int
    }

    fn wide(self) -> (n: i128) {
        self as i128
    }
}

impl Number for i64 {
    fn same(self, other: Self) -> (r: bool) {
        self == other
    }

    open spec fn value(self) -> int {
        self as int
    }

    fn wide(self) -> (n: i128) {
        self as i128
    }
}

impl Number for u64 {
    fn same(self, other: Self) -> (r: bool) {
        self == other
    }

    open spec fn value(self) -> int {
        self as int
    }

    fn wide(self) -> (n: i128) {
        self as i128
    }
}

/// Whether two vectors hold the same.
pub fn same_numbers<T: Number>(a: &Vec<T>, b: &Vec<T>) -> (r: bool)
    ensures
        r == (a@ == b@),
{
    if a.len() != b.len() {
        return false;
    }
    let mut i: usize = 0;
    while i < a.len()
        invariant
            i <= a@.len(),
            a@.len() == b@.len(),
            forall|k: int| 0 <= k < i ==> #[trigger] a@[k] == b@[k],
        decreases a@.len() - i,
    {
        if !a[i].same(b[i]) {
            return false;
        }
        i += 1;
    }
    assert(a@ =~= b@);
    true
}

} // verus!
