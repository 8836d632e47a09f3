//! Minecraft VarInt (`i32`, at most five bytes) encoding.
//!
//! Seven bits are stored per byte, least significant group first, with the
//! high bit marking that another byte follows.
use bytes::BytesMut;
use vstd::prelude::*;

use crate::casts::{lemma_i32_u32, lemma_u32_i32, signed};
use crate::error::{protocol_error, MineRiderError};
use crate::protocol::buffer::{short_read_text, PacketReader};
use crate::protocol::bytes_io::{buf_put_u8, contents, has_room};

verus! {

/// Maximum number of bytes an encoded VarInt may occupy.
pub const MAX_VARINT_BYTES: usize = 5;

/// The groups of seven bits of `n`, least significant first, all but the last
/// marked as continued.
pub open spec fn leb_bytes(n: nat) -> Seq<u8>
    decreases n,
{
    if n < 128 {
        seq![n as u8]
    } else {
        seq![(n % 128 + 128) as u8] + leb_bytes(n / 128)
    }
}

/// What stands at the front of a byte sequence.
#[verifier::ext_equal]
pub enum Leb {
    /// A number and how many bytes it took.
    Number { value: nat, used: nat },
    /// The bytes end before the number does.
    Truncated,
    /// The last byte that was allowed is still marked as continued.
    TooLong,
}

/// Reads groups of seven bits off the front of `s`, at most `max` of them.
pub open spec fn leb_front(s: Seq<u8>, max: nat) -> Leb
    decreases max,
{
    if max == 0 {
        Leb::TooLong
    } else if s.len() == 0 {
        Leb::Truncated
    } else if s[0] < 128 {
        Leb::Number { value: s[0] as nat, used: 1 }
    } else {
        match leb_front(s.drop_first(), (max - 1) as nat) {
            Leb::Number { value, used } => Leb::Number {
                value: (s[0] - 128) as nat + 128 * value,
                used: used + 1,
            },
            other => other,
        }
    }
}

/// `128` to the power `n`.
pub open spec fn pow128(n: nat) -> nat
    decreases n,
{
    if n == 0 {
        1
    } else {
        128 * pow128((n - 1) as nat)
    }
}

/// The powers that bound a VarInt and a VarLong.
pub proof fn lemma_pow128_values()
    ensures
        pow128(1) == 0x80,
        pow128(2) == 0x4000,
        pow128(3) == 0x20_0000,
        pow128(4) == 0x1000_0000,
        pow128(5) == 0x8_0000_0000,
        pow128(10) == 0x40_0000_0000_0000_0000,
{
    reveal_with_fuel(pow128, 11);
}

/// Larger exponents give larger powers.
pub proof fn lemma_pow128_monotone(a: nat, b: nat)
    requires
        a <= b,
    ensures
        1 <= pow128(a) <= pow128(b),
    decreases b,
{
    if a < b {
        lemma_pow128_monotone(a, (b - 1) as nat);
    } else if a > 0 {
        lemma_pow128_monotone((a - 1) as nat, (a - 1) as nat);
    }
}

/// What was read fits the groups it was read from, and lies inside the input.
pub proof fn lemma_leb_front_bounds(s: Seq<u8>, max: nat)
    ensures
        leb_front(s, max) matches Leb::Number { value, used } ==> {
            &&& 1 <= used <= max
            &&& used <= s.len()
            &&& value < pow128(max)
        },
        leb_front(s, max) is Truncated ==> s.len() < max,
        leb_front(s, max) is TooLong ==> s.len() >= max,
    decreases max,
{
    if max > 0 {
        lemma_pow128_monotone(1, max);
        lemma_pow128_values();
        if s.len() > 0 && s[0] >= 128 {
            lemma_leb_front_bounds(s.drop_first(), (max - 1) as nat);
        }
    }
}

/// Reading undoes writing: the encoding of `n`, followed by anything, reads as
/// `n` and takes exactly the bytes of the encoding.
pub proof fn lemma_leb_round_trip(n: nat, rest: Seq<u8>, max: nat)
    requires
        n < pow128(max),
        max > 0,
    ensures
        leb_front(leb_bytes(n) + rest, max) == (Leb::Number { value: n, used: leb_bytes(n).len() }),
        leb_bytes(n).len() <= max,
    decreases max,
{
    let s = leb_bytes(n) + rest;
    lemma_pow128_values();
    if n < 128 {
        assert(s[0] == n as u8);
    } else {
        assert(max > 1);
        lemma_leb_round_trip(n / 128, rest, (max - 1) as nat);
        assert(s[0] == (n % 128 + 128) as u8);
        assert(s.drop_first() =~= leb_bytes(n / 128) + rest);
    }
}

/// The unsigned pattern of a VarInt value.
pub open spec fn varint_pattern(v: i32) -> nat {
    (v as u32) as nat
}

/// The bytes a VarInt is written as.
pub open spec fn varint_bytes(v: i32) -> Seq<u8> {
    leb_bytes(varint_pattern(v))
}

/// The `i32` that a number read off the wire stands for: its low 32 bits, as
/// two's complement.
pub open spec fn varint_meaning(value: nat) -> int {
    signed(value as int % 0x1_0000_0000, 0x1_0000_0000)
}

/// Reading a VarInt gives back the value that was written, whatever follows it.
pub proof fn law_varint_round_trip(v: i32, rest: Seq<u8>)
    ensures
        leb_front(varint_bytes(v) + rest, MAX_VARINT_BYTES as nat) == (Leb::Number {
            value: varint_pattern(v),
            used: varint_bytes(v).len(),
        }),
        varint_meaning(varint_pattern(v)) == v,
        1 <= varint_bytes(v).len() <= MAX_VARINT_BYTES,
{
    lemma_pow128_values();
    lemma_i32_u32(v);
    lemma_leb_round_trip(varint_pattern(v), rest, 5);
    lemma_leb_front_bounds(varint_bytes(v) + rest, 5);
}

/// The groups of a number: every one but the last is marked, and the last is not
/// zero unless it is the only one.
pub proof fn lemma_leb_shape(n: nat)
    ensures
        leb_bytes(n).len() >= 1,
        forall|i: int| 0 <= i < leb_bytes(n).len() - 1 ==> #[trigger] leb_bytes(n)[i] >= 128,
        leb_bytes(n).last() < 128,
        n > 0 ==> leb_bytes(n).last() > 0,
    decreases n,
{
    if n >= 128 {
        let rest = leb_bytes(n / 128);
        lemma_leb_shape(n / 128);
        assert(leb_bytes(n).last() == rest.last());
        assert forall|i: int| 0 <= i < leb_bytes(n).len() - 1 implies #[trigger] leb_bytes(n)[i]
            >= 128 by {
            if i > 0 {
                assert(leb_bytes(n)[i] == rest[i - 1]);
            }
        }
    }
}

/// A number takes as many groups as it has digits to the base 128.
pub proof fn lemma_leb_len(n: nat, k: nat)
    requires
        n >= pow128(k),
    ensures
        leb_bytes(n).len() > k,
    decreases k,
{
    lemma_leb_shape(n);
    if k > 0 {
        lemma_pow128_monotone(1, k);
        lemma_pow128_values();
        assert(n / 128 >= pow128((k - 1) as nat)) by (nonlinear_arith)
            requires
                n >= pow128(k),
                pow128(k) == 128 * pow128((k - 1) as nat),
        ;
        lemma_leb_len(n / 128, (k - 1) as nat);
    }
}

/// Whether bytes write a number in the shortest way: every byte but the last is
/// marked, the last is not, and it is not zero unless it is the only one.
pub open spec fn is_shortest(e: Seq<u8>) -> bool {
    &&& e.len() >= 1
    &&& forall|i: int| 0 <= i < e.len() - 1 ==> #[trigger] e[i] >= 0x80
    &&& e.last() < 0x80
    &&& e.len() > 1 ==> e.last() != 0
}

/// A VarInt is written in the shortest way, in at most five bytes. A negative
/// value takes five.
pub proof fn law_varint_is_shortest(v: i32)
    ensures
        is_shortest(varint_bytes(v)),
        varint_bytes(v).len() <= MAX_VARINT_BYTES,
        v < 0 ==> varint_bytes(v).len() == 5,
{
    law_varint_round_trip(v, Seq::empty());
    lemma_leb_shape(varint_pattern(v));
    lemma_i32_u32(v);
    if v < 0 {
        lemma_pow128_values();
        lemma_leb_len(varint_pattern(v), 4);
    }
}

/// Appends the groups of `n`.
pub(crate) fn write_leb(buf: &mut BytesMut, n: u64)
    requires
        has_room(contents(*old(buf)).len(), leb_bytes(n as nat).len()),
    ensures
        contents(*final(buf)) == contents(*old(buf)) + leb_bytes(n as nat),
    decreases n,
{
    let ghost before = contents(*buf);
    proof {
        lemma_leb_shape(n as nat);
    }
    if n < 128 {
        buf_put_u8(buf, n as u8);
        assert(contents(*buf) =~= before + leb_bytes(n as nat));
    } else {
        proof {
            lemma_leb_shape(n as nat / 128);
        }
        let byte: u8 = (n % 128) as u8 + 128;
        buf_put_u8(buf, byte);
        write_leb(buf, n / 128);
        assert(contents(*buf) =~= before + leb_bytes(n as nat));
    }
}

/// Reads groups off the front of the reader, at most `max` of them.
pub(crate) fn read_leb(r: &mut PacketReader<'_>, max: u8, too_long: &'static str) -> (res: Result<
    u128,
    MineRiderError,
>)
    requires
        max <= 10,
    ensures
        match (leb_front(old(r)@, max as nat), res) {
            (Leb::Number { value, used }, Ok(v)) => v == value && final(r)@ == old(r)@.skip(
                used as int,
            ),
            (Leb::Truncated, Err(e)) => final(r)@ =~= Seq::<u8>::empty() && e.is_protocol(
                short_read_text(1, 0),
            ),
            (Leb::TooLong, Err(e)) => final(r)@ == old(r)@.skip(max as int) && e.is_protocol(
                too_long@,
            ),
            _ => false,
        },
    decreases max,
{
    let ghost start = r@;
    if max == 0 {
        assert(start.skip(0) =~= start);
        return Err(protocol_error(too_long));
    }
    let byte = match r.get_u8() {
        Ok(byte) => byte,
        Err(e) => {
            return Err(e);
        },
    };
    assert(start.skip(1) =~= start.drop_first());
    if byte < 128 {
        return Ok(byte as u128);
    }
    proof {
        lemma_leb_front_bounds(start.drop_first(), (max - 1) as nat);
        lemma_pow128_monotone((max - 1) as nat, 10);
        lemma_pow128_values();
    }
    let rest = read_leb(r, max - 1, too_long);
    proof {
        if let Leb::Number { value, used } = leb_front(start.drop_first(), (max - 1) as nat) {
            assert(start.drop_first().skip(used as int) =~= start.skip(used as int + 1));
        }
        if leb_front(start.drop_first(), (max - 1) as nat) is TooLong {
            assert(start.drop_first().skip(max - 1) =~= start.skip(max as int));
        }
    }
    match rest {
        Ok(value) => Ok((byte - 128) as u128 + 128 * value),
        Err(e) => Err(e),
    }
}

/// Encodes `v` as a Minecraft VarInt and appends it to `buf`.
///
/// Negative values are encoded in two's complement.
pub fn write_varint(buf: &mut BytesMut, v: i32)
    requires
        has_room(contents(*old(buf)).len(), varint_bytes(v).len()),
    ensures
        contents(*final(buf)) == contents(*old(buf)) + varint_bytes(v),
        is_shortest(varint_bytes(v)),
        varint_bytes(v).len() <= MAX_VARINT_BYTES,
        v < 0 ==> varint_bytes(v).len() == 5,
{
    proof {
        law_varint_is_shortest(v);
    }
    write_leb(buf, (v as u32) as u64);
}

/// The text of the error for an over-long VarInt.
pub open spec fn varint_too_long() -> Seq<char> {
    "varint is too long (more than 5 bytes)"@
}

/// Decodes a VarInt from the reader, advancing it.
///
/// Fails if the encoding uses more than five bytes or the data is truncated;
/// the bytes looked at are consumed either way.
pub fn read_varint(r: &mut PacketReader<'_>) -> (res: Result<i32, MineRiderError>)
    ensures
        match (leb_front(old(r)@, MAX_VARINT_BYTES as nat), res) {
            (Leb::Number { value, used }, Ok(v)) => v == varint_meaning(value) && final(r)@
                == old(r)@.skip(used as int),
            (Leb::Truncated, Err(e)) => final(r)@ =~= Seq::<u8>::empty() && e.is_protocol(
                short_read_text(1, 0),
            ),
            (Leb::TooLong, Err(e)) => final(r)@ == old(r)@.skip(MAX_VARINT_BYTES as int)
                && e.is_protocol(varint_too_long()),
            _ => false,
        },
{
    match read_leb(r, 5, "varint is too long (more than 5 bytes)") {
        Ok(value) => {
            let low: u32 = (value % 0x1_0000_0000) as u32;
            proof {
                lemma_u32_i32(low);
            }
            Ok(low as i32)
        },
        Err(e) => Err(e),
    }
}

/// Returns the number of bytes `v` occupies when encoded as a VarInt.
pub fn varint_size(v: i32) -> (size: usize)
    ensures
        size == varint_bytes(v).len(),
        1 <= size <= MAX_VARINT_BYTES,
{
    let mut value: u32 = v as u32;
    let mut size: usize = 1;
    proof {
        law_varint_round_trip(v, Seq::empty());
    }
    while value >= 128
        invariant
            varint_bytes(v).len() <= 5,
            1 <= size,
            size - 1 + leb_bytes(value as nat).len() == varint_bytes(v).len(),
        decreases value,
    {
        value = value / 128;
        assert(leb_bytes(value as nat).len() >= 1);
        size += 1;
    }
    size
}

} // verus!
