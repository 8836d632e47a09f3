//! Numbers and texts on the wire, byte by byte.
use crate::protocol::big_endian::{be_bytes, be_value};
use crate::protocol::buffer::{byte_array_bytes, packed_position, string_bytes, unpacked_position};
use crate::protocol::varint::{leb_front, varint_bytes, varint_meaning, Leb};
use crate::protocol::varlong::varlong_meaning;
use crate::text_build::{decimal, hex};
use vstd::prelude::*;
use vstd::utf8::encode_utf8;

verus! {

/// Numbers of two, four and eight bytes come with the high byte first.
pub proof fn law_high_bytes_come_first(a: u8, b: u8, c: u8, d: u8, v: nat)
    ensures
        be_value(seq![a, b]) == a * 256 + b,
        be_value(seq![a, b, c, d]) == a * 0x100_0000 + b * 0x1_0000 + c * 256 + d,
        be_value(seq![0u8, 0u8, 0u8, 0u8, a, b, c, d]) == be_value(seq![a, b, c, d]),
        be_value(seq![a, b, c, d, 0u8, 0u8, 0u8, 0u8]) == be_value(seq![a, b, c, d])
            * 0x1_0000_0000,
        v < 0x1_0000 ==> be_bytes(v, 2) == seq![(v / 256) as u8, (v % 256) as u8],
        v < 0x1_0000_0000 ==> be_bytes(v, 4) == seq![
            (v / 0x100_0000) as u8,
            (v / 0x1_0000 % 256) as u8,
            (v / 256 % 256) as u8,
            (v % 256) as u8,
        ],
{
    reveal_with_fuel(be_value, 9);
    reveal_with_fuel(be_bytes, 5);
    assert(seq![a, b].drop_last() =~= seq![a]);
    assert(seq![a].drop_last() =~= Seq::<u8>::empty());
    assert(seq![a, b, c, d].drop_last() =~= seq![a, b, c]);
    assert(seq![a, b, c].drop_last() =~= seq![a, b]);
    let low = seq![0u8, 0u8, 0u8, 0u8, a, b, c, d];
    assert(low.drop_last() =~= seq![0u8, 0u8, 0u8, 0u8, a, b, c]);
    assert(seq![0u8, 0u8, 0u8, 0u8, a, b, c].drop_last() =~= seq![0u8, 0u8, 0u8, 0u8, a, b]);
    assert(seq![0u8, 0u8, 0u8, 0u8, a, b].drop_last() =~= seq![0u8, 0u8, 0u8, 0u8, a]);
    assert(seq![0u8, 0u8, 0u8, 0u8, a].drop_last() =~= seq![0u8, 0u8, 0u8, 0u8]);
    assert(seq![0u8, 0u8, 0u8, 0u8].drop_last() =~= seq![0u8, 0u8, 0u8]);
    assert(seq![0u8, 0u8, 0u8].drop_last() =~= seq![0u8, 0u8]);
    assert(seq![0u8, 0u8].drop_last() =~= seq![0u8]);
    assert(seq![0u8].drop_last() =~= Seq::<u8>::empty());
    let high = seq![a, b, c, d, 0u8, 0u8, 0u8, 0u8];
    assert(high.drop_last() =~= seq![a, b, c, d, 0u8, 0u8, 0u8]);
    assert(seq![a, b, c, d, 0u8, 0u8, 0u8].drop_last() =~= seq![a, b, c, d, 0u8, 0u8]);
    assert(seq![a, b, c, d, 0u8, 0u8].drop_last() =~= seq![a, b, c, d, 0u8]);
    assert(seq![a, b, c, d, 0u8].drop_last() =~= seq![a, b, c, d]);
    if v < 0x1_0000 {
        assert(be_bytes(v, 2) =~= seq![(v / 256) as u8, (v % 256) as u8]);
    }
    if v < 0x1_0000_0000 {
        assert(v / 256 / 256 == v / 0x1_0000 && v / 256 / 256 / 256 == v / 0x100_0000);
        assert(v / 0x100_0000 < 256);
        assert(be_bytes(v, 4) =~= seq![
            (v / 0x100_0000) as u8,
            (v / 0x1_0000 % 256) as u8,
            (v / 256 % 256) as u8,
            (v % 256) as u8,
        ]);
    }
}

/// A number read group by group weighs each group by its place, the first least:
/// marked bytes go on, the first unmarked one ends it. Five groups are the most of
/// a VarInt.
pub proof fn law_groups_weigh_by_their_place(
    a: u8,
    b: u8,
    c: u8,
    d: u8,
    e: u8,
    rest: Seq<u8>,
)
    requires
        a < 128 && b < 128 && c < 128 && d < 128 && e < 128,
    ensures
        leb_front(seq![a] + rest, 5) == (Leb::Number { value: a as nat, used: 1 }),
        leb_front(seq![(a + 128) as u8, b] + rest, 5) == (Leb::Number {
            value: (a + 128 * b) as nat,
            used: 2,
        }),
        leb_front(seq![(a + 128) as u8, (b + 128) as u8, c] + rest, 5) == (Leb::Number {
            value: (a + 128 * b + 16384 * c) as nat,
            used: 3,
        }),
        leb_front(
            seq![(a + 128) as u8, (b + 128) as u8, (c + 128) as u8, (d + 128) as u8, e] + rest,
            5,
        ) == (Leb::Number {
            value: (a + 128 * b + 16384 * c + 0x20_0000 * d + 0x1000_0000 * e) as nat,
            used: 5,
        }),
        leb_front(
            seq![
                (a + 128) as u8,
                (b + 128) as u8,
                (c + 128) as u8,
                (d + 128) as u8,
                (e + 128) as u8,
            ] + rest,
            5,
        ) == Leb::TooLong,
{
    reveal_with_fuel(leb_front, 6);
    let (a1, b1, c1, d1, e1) = (
        (a + 128) as u8,
        (b + 128) as u8,
        (c + 128) as u8,
        (d + 128) as u8,
        (e + 128) as u8,
    );
    assert((seq![a1, b] + rest).drop_first() =~= seq![b] + rest);
    assert((seq![a1, b1, c] + rest).drop_first() =~= seq![b1, c] + rest);
    assert((seq![b1, c] + rest).drop_first() =~= seq![c] + rest);
    assert((seq![a1, b1, c1, d1, e] + rest).drop_first() =~= seq![b1, c1, d1, e] + rest);
    assert((seq![b1, c1, d1, e] + rest).drop_first() =~= seq![c1, d1, e] + rest);
    assert((seq![c1, d1, e] + rest).drop_first() =~= seq![d1, e] + rest);
    assert((seq![d1, e] + rest).drop_first() =~= seq![e] + rest);
    assert((seq![a1, b1, c1, d1, e1] + rest).drop_first() =~= seq![b1, c1, d1, e1] + rest);
    assert((seq![b1, c1, d1, e1] + rest).drop_first() =~= seq![c1, d1, e1] + rest);
    assert((seq![c1, d1, e1] + rest).drop_first() =~= seq![d1, e1] + rest);
    assert((seq![d1, e1] + rest).drop_first() =~= seq![e1] + rest);
    assert((seq![e1] + rest).drop_first() =~= rest);
}

/// The numbers of a VarInt and a VarLong are their low 32 and 64 bits in two's
/// complement.
pub proof fn law_low_bits_are_signed(n: nat)
    ensures
        n < 0x8000_0000 ==> varint_meaning(n) == n,
        0x8000_0000 <= n < 0x1_0000_0000 ==> varint_meaning(n) == n - 0x1_0000_0000,
        varint_meaning(n + 0x1_0000_0000) == varint_meaning(n),
        n < 0x8000_0000_0000_0000 ==> varlong_meaning(n) == n,
        0x8000_0000_0000_0000 <= n < 0x1_0000_0000_0000_0000 ==> varlong_meaning(n) == n
            - 0x1_0000_0000_0000_0000,
{
}

/// A position is one number: 26 bits of x, then 26 of z, then 12 of y, each in two's
/// complement.
pub proof fn law_positions_hold_x_then_z_then_y(x: int, y: int, z: int)
    requires
        -0x200_0000 <= x < 0x200_0000,
        -0x200_0000 <= z < 0x200_0000,
        -0x800 <= y < 0x800,
    ensures
        packed_position(x, y, z) == (if x < 0 {
            x + 0x400_0000
        } else {
            x
        }) * 0x40_0000_0000 + (if z < 0 {
            z + 0x400_0000
        } else {
            z
        }) * 0x1000 + (if y < 0 {
            y + 0x1000
        } else {
            y
        }),
        unpacked_position(packed_position(x, y, z)) == (x as i32, y as i32, z as i32),
{
    crate::protocol::buffer::law_position_round_trip(x as i32, y as i32, z as i32);
}

/// A text is the number of its UTF-8 bytes and then those bytes, and an array the
/// number of its bytes and then those.
pub proof fn law_lengths_come_before_contents(s: Seq<char>, data: Seq<u8>)
    ensures
        string_bytes(s) == varint_bytes(encode_utf8(s).len() as i32) + encode_utf8(s),
        byte_array_bytes(data) == varint_bytes(data.len() as i32) + data,
{
}

/// Numbers in writing: digits from the high end, a minus before those below zero,
/// and no zero in front.
pub proof fn law_decimals_are_written_from_the_high_end(n: int)
    ensures
        0 <= n < 10 ==> decimal(n) == seq![(48 + n) as char],
        n >= 10 ==> decimal(n) == decimal(n / 10).push((48 + n % 10) as char),
        n < 0 ==> decimal(n) == seq!['-'] + decimal(-n),
{
}

/// Hexadecimal writing has two digits at least, in lower case.
pub proof fn law_hex_has_two_digits(n: i32)
    ensures
        0 <= n < 10 ==> hex(n) == seq!['0', (48 + n) as char],
        10 <= n < 16 ==> hex(n) == seq!['0', (87 + n) as char],
        16 <= n < 160 && n % 16 < 10 ==> hex(n) == seq![(48 + n / 16) as char, (48 + n
            % 16) as char],
        160 <= n < 256 && n % 16 >= 10 ==> hex(n) == seq![(87 + n / 16) as char, (87 + n
            % 16) as char],
{
    reveal_with_fuel(crate::text_build::hex_nat, 3);
    if 0 <= n < 10 {
        assert(hex(n) =~= seq!['0', (48 + n) as char]);
    }
    if 10 <= n < 16 {
        assert(hex(n) =~= seq!['0', (87 + n) as char]);
    }
    if 16 <= n < 160 && n % 16 < 10 {
        assert(hex(n) =~= seq![(48 + n / 16) as char, (48 + n % 16) as char]);
    }
    if 160 <= n < 256 && n % 16 >= 10 {
        assert(hex(n) =~= seq![(87 + n / 16) as char, (87 + n % 16) as char]);
    }
}

} // verus!
