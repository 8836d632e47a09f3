//! What is put into packets and got out of them, byte by byte.
use crate::error::MineRiderError;
use crate::protocol::big_endian::{
    be_bytes, be_value, lemma_be_bytes_len, lemma_be_round_trip, lemma_pow256_values,
};
use crate::protocol::buffer::{
    byte_array_bytes, law_byte_array_round_trip, law_fixed_width_round_trip,
    law_position_round_trip, law_string_round_trip, pack_position, packed_position, string_bytes,
    unpack_position, PacketReader, PacketWriter,
};
use crate::protocol::varint::{law_varint_round_trip, varint_bytes, varint_size};
use crate::protocol::varlong::{law_varlong_round_trip, varlong_bytes};
use vstd::prelude::*;

verus! {

/// Small numbers go to the end of what is written, high byte first; true is one and
/// false nought.
pub proof fn law_small_numbers_are_put_at_the_end(
    a: &mut PacketWriter,
    b: &mut PacketWriter,
    c: &mut PacketWriter,
    d: &mut PacketWriter,
    byte: u8,
    flag: bool,
    short: u16,
    bits: u32,
)
    requires
        call_ensures(PacketWriter::put_u8, (a, byte), ()),
        call_ensures(PacketWriter::put_bool, (b, flag), ()),
        call_ensures(PacketWriter::put_u16, (c, short), ()),
        call_ensures(PacketWriter::put_f32, (d, bits), ()),
    ensures
        final(a)@ == old(a)@ + seq![byte],
        final(b)@ == old(b)@ + seq![if flag { 1u8 } else { 0u8 }],
        final(c)@ == old(c)@ + seq![(short / 256) as u8, (short % 256) as u8],
        final(d)@ == old(d)@ + seq![
            (bits / 0x100_0000) as u8,
            (bits / 0x1_0000 % 256) as u8,
            (bits / 256 % 256) as u8,
            (bits % 256) as u8,
        ],
{
    assert(final(a)@ =~= old(a)@ + seq![byte]);
    assert(final(b)@ =~= old(b)@ + seq![if flag { 1u8 } else { 0u8 }]);
    crate::laws::wire::law_high_bytes_come_first(0, 0, 0, 0, short as nat);
    crate::laws::wire::law_high_bytes_come_first(0, 0, 0, 0, bits as nat);
}

/// Signed numbers are put in two's complement, as the unsigned number with the same
/// bits is.
pub proof fn law_signed_numbers_are_put_by_their_bits(
    a: &mut PacketWriter,
    b: &mut PacketWriter,
    c: &mut PacketWriter,
    short: i16,
    word: i32,
    long: i64,
)
    requires
        call_ensures(PacketWriter::put_i16, (a, short), ()),
        call_ensures(PacketWriter::put_i32, (b, word), ()),
        call_ensures(PacketWriter::put_i64, (c, long), ()),
    ensures
        final(a)@ == old(a)@ + be_bytes((short as u16) as nat, 2),
        final(b)@ == old(b)@ + be_bytes((word as u32) as nat, 4),
        final(c)@ == old(c)@ + be_bytes((long as u64) as nat, 8),
        word >= 0 ==> (word as u32) as int == word,
        word < 0 ==> (word as u32) as int == word + 0x1_0000_0000,
{
    crate::casts::lemma_i32_u32(word);
}

/// A byte and two, four or eight of them are got from the front, high byte first, and
/// the rest stays. Where there are not enough, nothing is read.
pub proof fn law_numbers_are_got_from_the_front(
    a: &mut PacketReader<'_>,
    b: &mut PacketReader<'_>,
    c: &mut PacketReader<'_>,
    d: &mut PacketReader<'_>,
    byte: Result<u8, MineRiderError>,
    flag: Result<bool, MineRiderError>,
    short: Result<u16, MineRiderError>,
    bits: Result<u32, MineRiderError>,
)
    requires
        call_ensures(PacketReader::get_u8, (a,), byte),
        call_ensures(PacketReader::get_bool, (b,), flag),
        call_ensures(PacketReader::get_u16, (c,), short),
        call_ensures(PacketReader::get_f32, (d,), bits),
    ensures
        old(a)@.len() >= 1 ==> byte == Ok::<_, MineRiderError>(old(a)@[0]) && final(a)@ == old(
            a,
        )@.skip(1),
        old(a)@.len() == 0 ==> byte is Err && final(a)@ == old(a)@,
        old(b)@.len() >= 1 ==> (flag matches Ok(f) && (f <==> old(b)@[0] != 0)),
        old(c)@.len() >= 2 ==> (short matches Ok(n) && n == old(c)@[0] * 256 + old(c)@[1])
            && final(c)@ == old(c)@.skip(2),
        old(c)@.len() < 2 ==> short is Err && final(c)@ == old(c)@,
        old(d)@.len() >= 4 ==> (bits matches Ok(n) && n == old(d)@[0] * 0x100_0000 + old(d)@[1]
            * 0x1_0000 + old(d)@[2] * 256 + old(d)@[3]) && final(d)@ == old(d)@.skip(4),
        old(d)@.len() < 4 ==> bits is Err && final(d)@ == old(d)@,
{
    if old(c)@.len() >= 2 {
        let s = old(c)@;
        assert(s.take(2) =~= seq![s[0], s[1]]);
        crate::laws::wire::law_high_bytes_come_first(s[0], s[1], 0, 0, 0);
    }
    if old(d)@.len() >= 4 {
        let s = old(d)@;
        assert(s.take(4) =~= seq![s[0], s[1], s[2], s[3]]);
        crate::laws::wire::law_high_bytes_come_first(s[0], s[1], s[2], s[3], 0);
    }
}

/// Signed numbers are got as the unsigned number with the same bits is.
pub proof fn law_signed_numbers_are_got_by_their_bits(
    a: &mut PacketReader<'_>,
    b: &mut PacketReader<'_>,
    c: &mut PacketReader<'_>,
    short: Result<i16, MineRiderError>,
    word: Result<i32, MineRiderError>,
    long: Result<i64, MineRiderError>,
)
    requires
        call_ensures(PacketReader::get_i16, (a,), short),
        call_ensures(PacketReader::get_i32, (b,), word),
        call_ensures(PacketReader::get_i64, (c,), long),
    ensures
        old(a)@.len() >= 2 ==> (short matches Ok(n) && n == (be_value(
            old(a)@.take(2),
        ) as u16) as i16) && final(a)@ == old(a)@.skip(2),
        old(b)@.len() >= 4 ==> (word matches Ok(n) && n == (be_value(
            old(b)@.take(4),
        ) as u32) as i32) && final(b)@ == old(b)@.skip(4),
        old(c)@.len() >= 8 ==> (long matches Ok(n) && n == (be_value(
            old(c)@.take(8),
        ) as u64) as i64) && final(c)@ == old(c)@.skip(8),
        old(a)@.len() < 2 <==> short is Err,
        old(b)@.len() < 4 <==> word is Err,
        old(c)@.len() < 8 <==> long is Err,
{
}

/// A VarInt that was put is got back, and what follows it stays. Its size is what it
/// takes: one byte for each seven bits, and five for numbers below zero.
pub proof fn law_varints_are_got_back(
    w: &mut PacketWriter,
    r: &mut PacketReader<'_>,
    v: i32,
    rest: Seq<u8>,
    res: Result<i32, MineRiderError>,
    size: usize,
)
    requires
        call_ensures(PacketWriter::put_varint, (w, v), ()),
        call_ensures(PacketReader::get_varint, (r,), res),
        call_ensures(varint_size, (v,), size),
        old(w)@.len() == 0,
        old(r)@ == final(w)@ + rest,
    ensures
        res == Ok::<_, MineRiderError>(v),
        final(r)@ == rest,
        size == final(w)@.len(),
        0 <= v < 128 ==> final(w)@ == seq![v as u8],
        128 <= v < 16384 ==> final(w)@ == seq![(v % 128 + 128) as u8, (v / 128) as u8],
        v < 0 ==> size == 5,
{
    assert(old(w)@ + varint_bytes(v) =~= varint_bytes(v));
    law_varint_round_trip(v, rest);
    assert((varint_bytes(v) + rest).skip(varint_bytes(v).len() as int) =~= rest);
    crate::protocol::varint::law_varint_is_shortest(v);
    reveal_with_fuel(crate::protocol::varint::leb_bytes, 3);
    if 0 <= v < 128 {
        assert(varint_bytes(v) =~= seq![v as u8]);
    } else if 128 <= v < 16384 {
        assert(varint_bytes(v) =~= seq![(v % 128 + 128) as u8, (v / 128) as u8]);
    }
}

/// A text that was put is got back, where it has no more than 32767 characters; a
/// longer one is not put.
pub proof fn law_texts_are_got_back(
    w: &mut PacketWriter,
    r: &mut PacketReader<'_>,
    s: &str,
    rest: Seq<u8>,
    put: Result<(), MineRiderError>,
    res: Result<String, MineRiderError>,
)
    requires
        call_ensures(PacketWriter::put_string, (w, s), put),
        call_ensures(PacketReader::read_string, (r,), res),
        old(w)@.len() == 0,
        old(r)@ == final(w)@ + rest,
    ensures
        put is Ok <==> s@.len() <= 32767,
        put is Err ==> final(w)@ == old(w)@,
        put is Ok ==> (res matches Ok(t) && t@ == s@) && final(r)@ == rest,
{
    if put is Ok {
        assert(old(w)@ + string_bytes(s@) =~= string_bytes(s@));
        law_string_round_trip(s@, rest);
        assert((string_bytes(s@) + rest).skip(string_bytes(s@).len() as int) =~= rest);
    }
}

/// A position that is packed is unpacked again, x, y and z in their places, and its
/// bits are those of x, then z, then y.
pub proof fn law_positions_are_unpacked_again(
    x: i32,
    y: i32,
    z: i32,
    packed: i64,
    p: (i32, i32, i32),
)
    requires
        call_ensures(pack_position, (x, y, z), packed),
        call_ensures(unpack_position, (packed,), p),
        -0x200_0000 <= x < 0x200_0000,
        -0x200_0000 <= z < 0x200_0000,
        -0x800 <= y < 0x800,
    ensures
        p == (x, y, z),
        0 <= x && 0 <= z && 0 <= y ==> packed == x * 0x40_0000_0000 + z * 0x1000 + y,
{
    crate::casts::lemma_i64_u64(packed);
    crate::protocol::buffer::law_position_round_trip(x, y, z);
    crate::laws::wire::law_positions_hold_x_then_z_then_y(x as int, y as int, z as int);
}

/// Raw bytes are put and got as they are, and a number of sixteen bytes high byte
/// first.
pub proof fn law_raw_bytes_stay_as_they_are(
    w: &mut PacketWriter,
    r: &mut PacketReader<'_>,
    u: &mut PacketWriter,
    data: &[u8],
    n: usize,
    res: Result<&[u8], MineRiderError>,
    uuid: u128,
)
    requires
        call_ensures(PacketWriter::put_bytes, (w, data), ()),
        call_ensures(PacketReader::read_bytes, (r, n), res),
        call_ensures(PacketWriter::put_uuid, (u, uuid), ()),
    ensures
        final(w)@ == old(w)@ + data@,
        res is Ok <==> old(r)@.len() >= n,
        res matches Ok(out) ==> old(r)@ == out@ + final(r)@ && out@.len() == n,
        res is Err ==> final(r)@ == old(r)@,
        final(u)@ == old(u)@ + be_bytes(uuid as nat, 16),
{
    if let Ok(out) = res {
        assert(old(r)@ =~= out@ + final(r)@);
    }
}

/// Bytes that were put first, and what follows them.
proof fn lemma_front(before: Seq<u8>, bytes: Seq<u8>, rest: Seq<u8>)
    requires
        before.len() == 0,
    ensures
        before + bytes == bytes,
        (bytes + rest).take(bytes.len() as int) == bytes,
        (bytes + rest).skip(bytes.len() as int) == rest,
{
    assert(before + bytes =~= bytes);
    assert((bytes + rest).take(bytes.len() as int) =~= bytes);
    assert((bytes + rest).skip(bytes.len() as int) =~= rest);
}

/// A signed number of two bytes that was put is got back, and what follows it stays.
pub proof fn law_shorts_are_got_back(
    w: &mut PacketWriter,
    r: &mut PacketReader<'_>,
    v: i16,
    rest: Seq<u8>,
    res: Result<i16, MineRiderError>,
)
    requires
        call_ensures(PacketWriter::put_i16, (w, v), ()),
        call_ensures(PacketReader::get_i16, (r,), res),
        old(w)@.len() == 0,
        old(r)@ == final(w)@ + rest,
    ensures
        res == Ok::<_, MineRiderError>(v),
        final(r)@ == rest,
{
    let bytes = be_bytes((v as u16) as nat, 2);
    lemma_be_bytes_len((v as u16) as nat, 2);
    lemma_front(old(w)@, bytes, rest);
    law_fixed_width_round_trip(v, 0, 0, 0, 0, 0, 0);
}

/// An unsigned number of two bytes that was put is got back, and what follows it stays.
pub proof fn law_unsigned_shorts_are_got_back(
    w: &mut PacketWriter,
    r: &mut PacketReader<'_>,
    v: u16,
    rest: Seq<u8>,
    res: Result<u16, MineRiderError>,
)
    requires
        call_ensures(PacketWriter::put_u16, (w, v), ()),
        call_ensures(PacketReader::get_u16, (r,), res),
        old(w)@.len() == 0,
        old(r)@ == final(w)@ + rest,
    ensures
        res == Ok::<_, MineRiderError>(v),
        final(r)@ == rest,
{
    let bytes = be_bytes(v as nat, 2);
    lemma_be_bytes_len(v as nat, 2);
    lemma_front(old(w)@, bytes, rest);
    law_fixed_width_round_trip(0, v, 0, 0, 0, 0, 0);
}

/// A signed number of four bytes that was put is got back, and what follows it stays.
pub proof fn law_words_are_got_back(
    w: &mut PacketWriter,
    r: &mut PacketReader<'_>,
    v: i32,
    rest: Seq<u8>,
    res: Result<i32, MineRiderError>,
)
    requires
        call_ensures(PacketWriter::put_i32, (w, v), ()),
        call_ensures(PacketReader::get_i32, (r,), res),
        old(w)@.len() == 0,
        old(r)@ == final(w)@ + rest,
    ensures
        res == Ok::<_, MineRiderError>(v),
        final(r)@ == rest,
{
    let bytes = be_bytes((v as u32) as nat, 4);
    lemma_be_bytes_len((v as u32) as nat, 4);
    lemma_front(old(w)@, bytes, rest);
    law_fixed_width_round_trip(0, 0, v, 0, 0, 0, 0);
}

/// A signed number of eight bytes that was put is got back, and what follows it stays.
pub proof fn law_longs_are_got_back(
    w: &mut PacketWriter,
    r: &mut PacketReader<'_>,
    v: i64,
    rest: Seq<u8>,
    res: Result<i64, MineRiderError>,
)
    requires
        call_ensures(PacketWriter::put_i64, (w, v), ()),
        call_ensures(PacketReader::get_i64, (r,), res),
        old(w)@.len() == 0,
        old(r)@ == final(w)@ + rest,
    ensures
        res == Ok::<_, MineRiderError>(v),
        final(r)@ == rest,
{
    let bytes = be_bytes((v as u64) as nat, 8);
    lemma_be_bytes_len((v as u64) as nat, 8);
    lemma_front(old(w)@, bytes, rest);
    law_fixed_width_round_trip(0, 0, 0, v, 0, 0, 0);
}

/// An unsigned number of eight bytes that was put is got back, and what follows it stays.
pub proof fn law_unsigned_longs_are_got_back(
    w: &mut PacketWriter,
    r: &mut PacketReader<'_>,
    v: u64,
    rest: Seq<u8>,
    res: Result<u64, MineRiderError>,
)
    requires
        call_ensures(PacketWriter::put_u64, (w, v), ()),
        call_ensures(PacketReader::get_u64, (r,), res),
        old(w)@.len() == 0,
        old(r)@ == final(w)@ + rest,
    ensures
        res == Ok::<_, MineRiderError>(v),
        final(r)@ == rest,
{
    let bytes = be_bytes(v as nat, 8);
    lemma_be_bytes_len(v as nat, 8);
    lemma_front(old(w)@, bytes, rest);
    law_fixed_width_round_trip(0, 0, 0, 0, v, 0, 0);
}

/// A single that was put is got back, and what follows it stays.
pub proof fn law_singles_are_got_back(
    w: &mut PacketWriter,
    r: &mut PacketReader<'_>,
    v: u32,
    rest: Seq<u8>,
    res: Result<u32, MineRiderError>,
)
    requires
        call_ensures(PacketWriter::put_f32, (w, v), ()),
        call_ensures(PacketReader::get_f32, (r,), res),
        old(w)@.len() == 0,
        old(r)@ == final(w)@ + rest,
    ensures
        res == Ok::<_, MineRiderError>(v),
        final(r)@ == rest,
{
    let bytes = be_bytes(v as nat, 4);
    lemma_be_bytes_len(v as nat, 4);
    lemma_front(old(w)@, bytes, rest);
    law_fixed_width_round_trip(0, 0, 0, 0, 0, v, 0);
}

/// A double that was put is got back, and what follows it stays.
pub proof fn law_doubles_are_got_back(
    w: &mut PacketWriter,
    r: &mut PacketReader<'_>,
    v: u64,
    rest: Seq<u8>,
    res: Result<u64, MineRiderError>,
)
    requires
        call_ensures(PacketWriter::put_f64, (w, v), ()),
        call_ensures(PacketReader::get_f64, (r,), res),
        old(w)@.len() == 0,
        old(r)@ == final(w)@ + rest,
    ensures
        res == Ok::<_, MineRiderError>(v),
        final(r)@ == rest,
{
    let bytes = be_bytes(v as nat, 8);
    lemma_be_bytes_len(v as nat, 8);
    lemma_front(old(w)@, bytes, rest);
    law_fixed_width_round_trip(0, 0, 0, 0, v, 0, 0);
}

/// A number of sixteen bytes that was put is got back, and what follows it stays.
pub proof fn law_uuids_are_got_back(
    w: &mut PacketWriter,
    r: &mut PacketReader<'_>,
    v: u128,
    rest: Seq<u8>,
    res: Result<u128, MineRiderError>,
)
    requires
        call_ensures(PacketWriter::put_uuid, (w, v), ()),
        call_ensures(PacketReader::read_uuid, (r,), res),
        old(w)@.len() == 0,
        old(r)@ == final(w)@ + rest,
    ensures
        res == Ok::<_, MineRiderError>(v),
        final(r)@ == rest,
{
    let bytes = be_bytes(v as nat, 16);
    lemma_be_bytes_len(v as nat, 16);
    lemma_front(old(w)@, bytes, rest);
    law_fixed_width_round_trip(0, 0, 0, 0, 0, 0, v);
}

/// A position that was put is got back, x, y and z in their places.
pub proof fn law_positions_are_got_back(
    w: &mut PacketWriter,
    r: &mut PacketReader<'_>,
    x: i32,
    y: i32,
    z: i32,
    rest: Seq<u8>,
    res: Result<(i32, i32, i32), MineRiderError>,
)
    requires
        call_ensures(PacketWriter::put_position, (w, x, y, z), ()),
        call_ensures(PacketReader::read_position, (r,), res),
        -0x200_0000 <= x < 0x200_0000,
        -0x200_0000 <= z < 0x200_0000,
        -0x800 <= y < 0x800,
        old(w)@.len() == 0,
        old(r)@ == final(w)@ + rest,
    ensures
        res == Ok::<_, MineRiderError>((x, y, z)),
        final(r)@ == rest,
{
    let packed = packed_position(x as int, y as int, z as int);
    law_position_round_trip(x, y, z);
    lemma_be_bytes_len(packed, 8);
    lemma_pow256_values();
    lemma_be_round_trip(packed, 8);
    lemma_front(old(w)@, be_bytes(packed, 8), rest);
}

/// A VarLong that was put is got back, and what follows it stays.
pub proof fn law_varlongs_are_got_back(
    w: &mut PacketWriter,
    r: &mut PacketReader<'_>,
    v: i64,
    rest: Seq<u8>,
    res: Result<i64, MineRiderError>,
)
    requires
        call_ensures(PacketWriter::put_varlong, (w, v), ()),
        call_ensures(PacketReader::get_varlong, (r,), res),
        old(w)@.len() == 0,
        old(r)@ == final(w)@ + rest,
    ensures
        res == Ok::<_, MineRiderError>(v),
        final(r)@ == rest,
        0 <= v < 128 ==> final(w)@ == seq![v as u8],
{
    law_varlong_round_trip(v, rest);
    lemma_front(old(w)@, varlong_bytes(v), rest);
    reveal_with_fuel(crate::protocol::varint::leb_bytes, 2);
    if 0 <= v < 128 {
        assert(varlong_bytes(v) =~= seq![v as u8]);
    }
}

/// An array that was put is got back, and what follows it stays.
pub proof fn law_arrays_are_got_back(
    w: &mut PacketWriter,
    r: &mut PacketReader<'_>,
    data: &[u8],
    rest: Seq<u8>,
    res: Result<&[u8], MineRiderError>,
)
    requires
        call_ensures(PacketWriter::put_byte_array, (w, data), ()),
        call_ensures(PacketReader::read_byte_array, (r,), res),
        data@.len() <= i32::MAX,
        old(w)@.len() == 0,
        old(r)@ == final(w)@ + rest,
    ensures
        res matches Ok(out) && out@ == data@,
        final(r)@ == rest,
{
    law_byte_array_round_trip(data@, rest);
    lemma_front(old(w)@, byte_array_bytes(data@), rest);
}

/// What is left to read shrinks to nothing when it is skipped, and is counted as it
/// is.
pub proof fn law_the_rest_is_counted(
    r: &PacketReader<'_>,
    s: &mut PacketReader<'_>,
    n: usize,
    empty: bool,
    data: &[u8],
    fresh: PacketReader<'_>,
)
    requires
        call_ensures(PacketReader::remaining, (r,), n),
        call_ensures(PacketReader::is_empty, (r,), empty),
        call_ensures(PacketReader::skip_all, (s,), ()),
        call_ensures(PacketReader::new, (data,), fresh),
    ensures
        n == r@.len(),
        empty <==> n == 0,
        final(s)@.len() == 0,
        fresh@ == data@,
{
}

} // verus!
