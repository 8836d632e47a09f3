//! Minecraft VarLong (`i64`, at most ten bytes) encoding.
use bytes::BytesMut;
use vstd::prelude::*;

use crate::casts::{lemma_i64_u64, lemma_u64_i64, signed};
use crate::error::MineRiderError;
use crate::protocol::buffer::{short_read_text, PacketReader};
use crate::protocol::bytes_io::{contents, has_room};
use crate::protocol::varint::{
    leb_bytes, leb_front, lemma_leb_front_bounds, lemma_leb_round_trip, lemma_pow128_values,
    read_leb, write_leb, Leb,
};

verus! {

/// Maximum number of bytes an encoded VarLong may occupy.
pub const MAX_VARLONG_BYTES: usize = 10;

/// The bytes a VarLong is written as.
pub open spec fn varlong_bytes(v: i64) -> Seq<u8> {
    leb_bytes((v as u64) as nat)
}

/// The `i64` that a number read off the wire stands for: its low 64 bits, as
/// two's complement.
pub open spec fn varlong_meaning(value: nat) -> int {
    signed(value as int % 0x1_0000_0000_0000_0000, 0x1_0000_0000_0000_0000)
}

/// Reading a VarLong gives back the value that was written, whatever follows it.
pub proof fn law_varlong_round_trip(v: i64, rest: Seq<u8>)
    ensures
        leb_front(varlong_bytes(v) + rest, MAX_VARLONG_BYTES as nat) == (Leb::Number {
            value: (v as u64) as nat,
            used: varlong_bytes(v).len(),
        }),
        varlong_meaning((v as u64) as nat) == v,
        1 <= varlong_bytes(v).len() <= MAX_VARLONG_BYTES,
{
    lemma_pow128_values();
    lemma_i64_u64(v);
    lemma_leb_round_trip((v as u64) as nat, rest, 10);
    lemma_leb_front_bounds(varlong_bytes(v) + rest, 10);
}

/// Encodes `v` as a Minecraft VarLong and appends it to `buf`.
pub fn write_varlong(buf: &mut BytesMut, v: i64)
    requires
        has_room(contents(*old(buf)).len(), varlong_bytes(v).len()),
    ensures
        contents(*final(buf)) == contents(*old(buf)) + varlong_bytes(v),
{
    write_leb(buf, v as u64);
}

/// Decodes a VarLong from the reader, advancing it.
///
/// Fails if the encoding uses more than ten bytes or the data is truncated.
pub fn read_varlong(r: &mut PacketReader<'_>) -> (res: Result<i64, MineRiderError>)
    ensures
        match (leb_front(old(r)@, MAX_VARLONG_BYTES as nat), res) {
            (Leb::Number { value, used }, Ok(v)) => v == varlong_meaning(value) && final(r)@
                == old(r)@.skip(used as int),
            (Leb::Truncated, Err(e)) => final(r)@ =~= Seq::<u8>::empty() && e.is_protocol(
                short_read_text(1, 0),
            ),
            (Leb::TooLong, Err(e)) => final(r)@ == old(r)@.skip(MAX_VARLONG_BYTES as int)
                && e.is_protocol("varlong is too long (more than 10 bytes)"@),
            _ => false,
        },
{
    match read_leb(r, 10, "varlong is too long (more than 10 bytes)") {
        Ok(value) => {
            let low: u64 = (value % 0x1_0000_0000_0000_0000) as u64;
            proof {
                lemma_u64_i64(low);
            }
            Ok(low as i64)
        },
        Err(e) => Err(e),
    }
}

} // verus!
