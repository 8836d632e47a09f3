//! Cursor-based read/write buffer over packet bytes.
//!
//! All readers are bounds-checked: short reads produce a protocol error.
use bytes::{Bytes, BytesMut};
use vstd::prelude::*;
use vstd::slice::{slice_subrange, slice_to_vec};
use vstd::string::*;
use vstd::utf8::{decode_utf8, encode_utf8, valid_utf8};

use crate::casts::{lemma_i16_u16, lemma_i32_u32, lemma_i64_u64, lemma_u64_i64, signed};
use crate::error::{protocol_error, MineRiderError};
use crate::protocol::big_endian::{
    be_bytes, be_value, from_be_slice, lemma_be_round_trip, lemma_be_value_bound,
    lemma_be_bytes_len, lemma_pow256_values, to_be_vec,
};
use crate::protocol::bytes_io::{
    buf_extend, buf_freeze, buf_new, buf_put_i16, buf_put_i32, buf_put_i64, buf_put_u16,
    buf_put_u32, buf_put_u64, buf_put_u8, buf_to_vec, contents, frozen, has_room,
};
use crate::protocol::varint::{
    leb_front, lemma_leb_front_bounds, law_varint_round_trip, read_varint, varint_bytes,
    varint_meaning, varint_too_long, write_varint, Leb, MAX_VARINT_BYTES,
};
use crate::protocol::varlong::{
    read_varlong, varlong_bytes, varlong_meaning, write_varlong, MAX_VARLONG_BYTES,
};
use crate::text_build::{decimal, text_with, text_with_two};

verus! {

/// Maximum number of characters allowed in a protocol string.
pub const MAX_STRING_CHARS: usize = 32767;

/// A growable buffer for serializing packet payloads.
#[derive(Debug)]
pub struct PacketWriter {
    buf: BytesMut,
}

impl View for PacketWriter {
    type V = Seq<u8>;

    /// The bytes written so far.
    closed spec fn view(&self) -> Seq<u8> {
        contents(self.buf)
    }
}

/// The text of the error for a string of too many characters.
pub open spec fn string_too_long_text(chars: int) -> Seq<char> {
    "string too long: "@ + decimal(chars) + " chars (max "@ + decimal(MAX_STRING_CHARS as int)
        + ")"@
}

fn string_too_long(chars: usize) -> (e: MineRiderError)
    ensures
        e.is_protocol(string_too_long_text(chars as int)),
{
    MineRiderError::Protocol(
        text_with_two(
            "string too long: ",
            chars as i128,
            " chars (max ",
            MAX_STRING_CHARS as i128,
            ")",
        ),
    )
}

impl PacketWriter {
    /// Creates an empty writer.
    pub fn new() -> (w: Self)
        ensures
            w@ == Seq::<u8>::empty(),
    {
        PacketWriter { buf: buf_new() }
    }

    /// Appends a single unsigned byte.
    pub fn put_u8(&mut self, v: u8)
        requires
            has_room(old(self)@.len(), 1),
        ensures
            final(self)@ == old(self)@.push(v),
    {
        buf_put_u8(&mut self.buf, v);
    }

    /// Appends a boolean (`0x01` for true, `0x00` for false).
    pub fn put_bool(&mut self, v: bool)
        requires
            has_room(old(self)@.len(), 1),
        ensures
            final(self)@ == old(self)@.push(if v { 1u8 } else { 0u8 }),
    {
        buf_put_u8(&mut self.buf, if v { 1 } else { 0 });
    }

    /// Appends a big-endian signed 16-bit integer.
    pub fn put_i16(&mut self, v: i16)
        requires
            has_room(old(self)@.len(), 2),
        ensures
            final(self)@ == old(self)@ + be_bytes((v as u16) as nat, 2),
    {
        buf_put_i16(&mut self.buf, v);
    }

    /// Appends a big-endian unsigned 16-bit integer.
    pub fn put_u16(&mut self, v: u16)
        requires
            has_room(old(self)@.len(), 2),
        ensures
            final(self)@ == old(self)@ + be_bytes(v as nat, 2),
    {
        buf_put_u16(&mut self.buf, v);
    }

    /// Appends a big-endian signed 32-bit integer.
    pub fn put_i32(&mut self, v: i32)
        requires
            has_room(old(self)@.len(), 4),
        ensures
            final(self)@ == old(self)@ + be_bytes((v as u32) as nat, 4),
    {
        buf_put_i32(&mut self.buf, v);
    }

    /// Appends a big-endian signed 64-bit integer.
    pub fn put_i64(&mut self, v: i64)
        requires
            has_room(old(self)@.len(), 8),
        ensures
            final(self)@ == old(self)@ + be_bytes((v as u64) as nat, 8),
    {
        buf_put_i64(&mut self.buf, v);
    }

    /// Appends a big-endian unsigned 64-bit integer.
    pub fn put_u64(&mut self, v: u64)
        requires
            has_room(old(self)@.len(), 8),
        ensures
            final(self)@ == old(self)@ + be_bytes(v as nat, 8),
    {
        buf_put_u64(&mut self.buf, v);
    }

    /// Appends a big-endian single-precision number, given by its bits.
    pub fn put_f32(&mut self, bits: u32)
        requires
            has_room(old(self)@.len(), 4),
        ensures
            final(self)@ == old(self)@ + be_bytes(bits as nat, 4),
    {
        buf_put_u32(&mut self.buf, bits);
    }

    /// Appends a big-endian double-precision number, given by its bits.
    pub fn put_f64(&mut self, bits: u64)
        requires
            has_room(old(self)@.len(), 8),
        ensures
            final(self)@ == old(self)@ + be_bytes(bits as nat, 8),
    {
        buf_put_u64(&mut self.buf, bits);
    }

    /// Appends a Minecraft VarInt.
    pub fn put_varint(&mut self, v: i32)
        requires
            has_room(old(self)@.len(), varint_bytes(v).len()),
        ensures
            final(self)@ == old(self)@ + varint_bytes(v),
    {
        write_varint(&mut self.buf, v);
    }

    /// Appends a Minecraft VarLong.
    pub fn put_varlong(&mut self, v: i64)
        requires
            has_room(old(self)@.len(), varlong_bytes(v).len()),
        ensures
            final(self)@ == old(self)@ + varlong_bytes(v),
    {
        write_varlong(&mut self.buf, v);
    }

    /// Appends a VarInt-length-prefixed UTF-8 string.
    ///
    /// Fails, writing nothing, if the string exceeds [`MAX_STRING_CHARS`]
    /// characters.
    pub fn put_string(&mut self, s: &str) -> (res: Result<(), MineRiderError>)
        requires
            s@.len() <= MAX_STRING_CHARS ==> has_room(old(self)@.len(), string_bytes(s@).len()),
        ensures
            res is Ok <==> s@.len() <= MAX_STRING_CHARS,
            res is Ok ==> final(self)@ == old(self)@ + string_bytes(s@),
            res matches Err(e) ==> final(self)@ == old(self)@ && e.is_protocol(
                string_too_long_text(s@.len() as int),
            ),
    {
        let chars: usize = s.unicode_len();
        if chars > MAX_STRING_CHARS {
            return Err(string_too_long(chars));
        }
        proof {
            lemma_utf8_len(s@);
            law_varint_round_trip(s.spec_bytes().len() as i32, Seq::empty());
        }
        let bytes = s.as_bytes();
        self.put_varint(bytes.len() as i32);
        buf_extend(&mut self.buf, bytes);
        assert(self@ =~= old(self)@ + string_bytes(s@));
        Ok(())
    }

    /// Appends raw bytes without any length prefix.
    pub fn put_bytes(&mut self, data: &[u8])
        requires
            has_room(old(self)@.len(), data@.len()),
        ensures
            final(self)@ == old(self)@ + data@,
    {
        buf_extend(&mut self.buf, data);
    }

    /// Appends a VarInt-length-prefixed byte array.
    pub fn put_byte_array(&mut self, data: &[u8])
        requires
            has_room(old(self)@.len(), byte_array_bytes(data@).len()),
        ensures
            final(self)@ == old(self)@ + byte_array_bytes(data@),
    {
        proof {
            law_varint_round_trip(data@.len() as i32, Seq::empty());
        }
        #[verifier::truncate]
        let len: i32 = data.len() as i32;
        self.put_varint(len);
        buf_extend(&mut self.buf, data);
        assert(self@ =~= old(self)@ + byte_array_bytes(data@));
    }

    /// Appends a UUID as 16 big-endian bytes.
    pub fn put_uuid(&mut self, uuid: u128)
        requires
            has_room(old(self)@.len(), 16),
        ensures
            final(self)@ == old(self)@ + be_bytes(uuid as nat, 16),
    {
        let bytes = to_be_vec(uuid, 16);
        proof {
            lemma_be_bytes_len(uuid as nat, 16);
        }
        buf_extend(&mut self.buf, bytes.as_slice());
    }

    /// Appends a packed block position (26/26/12 bits for x/z/y).
    pub fn put_position(&mut self, x: i32, y: i32, z: i32)
        requires
            has_room(old(self)@.len(), 8),
        ensures
            final(self)@ == old(self)@ + be_bytes(packed_position(x as int, y as int, z as int), 8),
    {
        let packed = pack_position(x, y, z);
        self.put_i64(packed);
    }

    /// Consumes the writer and returns the underlying buffer.
    pub fn into_inner(self) -> (buf: BytesMut)
        ensures
            contents(buf) == self@,
    {
        self.buf
    }

    /// The bytes written so far.
    pub fn to_vec(&self) -> (out: Vec<u8>)
        ensures
            out@ == self@,
    {
        buf_to_vec(&self.buf)
    }

    /// Consumes the writer and returns the serialized bytes.
    pub fn freeze(self) -> (out: Bytes)
        ensures
            frozen(out) == self@,
    {
        buf_freeze(self.buf)
    }
}

impl Default for PacketWriter {
    fn default() -> (w: Self)
        ensures
            w@ == Seq::<u8>::empty(),
    {
        PacketWriter::new()
    }
}

/// How a string is written: the length of its UTF-8 form, then that form.
pub open spec fn string_bytes(s: Seq<char>) -> Seq<u8> {
    byte_array_bytes(encode_utf8(s))
}

/// How a byte array is written: its length, then the bytes.
pub open spec fn byte_array_bytes(data: Seq<u8>) -> Seq<u8> {
    varint_bytes(data.len() as i32) + data
}

/// A string takes at most four bytes for each character, and five for its
/// length.
pub proof fn lemma_string_len(s: Seq<char>)
    ensures
        string_bytes(s).len() <= 4 * s.len() + 5,
{
    lemma_utf8_len(s);
    law_varint_round_trip(encode_utf8(s).len() as i32, Seq::empty());
}

/// A character takes one to four bytes in UTF-8.
pub proof fn lemma_utf8_len(s: Seq<char>)
    ensures
        s.len() <= encode_utf8(s).len() <= 4 * s.len(),
    decreases s.len(),
{
    reveal_with_fuel(encode_utf8, 2);
    if s.len() > 0 {
        lemma_utf8_len(s.drop_first());
    }
}

/// The text of the error for a read past the end.
pub open spec fn short_read_text(need: int, remain: int) -> Seq<char> {
    "unexpected end of packet: need "@ + decimal(need) + " bytes, "@ + decimal(remain)
        + " remain"@
}

/// A bounds-checked cursor for reading packet payloads.
#[derive(Debug)]
pub struct PacketReader<'a> {
    data: &'a [u8],
    pos: usize,
}

impl<'a> View for PacketReader<'a> {
    type V = Seq<u8>;

    /// The bytes not read yet.
    closed spec fn view(&self) -> Seq<u8> {
        self.data@.skip(self.pos as int)
    }
}

impl<'a> Clone for PacketReader<'a> {
    fn clone(&self) -> (r: Self)
        ensures
            r@ == self@,
    {
        proof {
            use_type_invariant(self);
        }
        PacketReader { data: self.data, pos: self.pos }
    }
}

impl<'a> PacketReader<'a> {
    #[verifier::type_invariant]
    spec fn in_bounds(self) -> bool {
        self.pos <= self.data@.len()
    }

    /// Creates a reader over `data`.
    pub fn new(data: &'a [u8]) -> (r: Self)
        ensures
            r@ == data@,
    {
        assert(data@.skip(0) =~= data@);
        PacketReader { data, pos: 0 }
    }

    /// Number of unread bytes remaining.
    pub fn remaining(&self) -> (n: usize)
        ensures
            n == self@.len(),
    {
        proof {
            use_type_invariant(self);
        }
        self.data.len() - self.pos
    }

    /// True if there are no unread bytes left.
    pub fn is_empty(&self) -> (b: bool)
        ensures
            b == (self@.len() == 0),
    {
        self.remaining() == 0
    }

    /// Ensures `n` bytes can be read, else returns a protocol error.
    fn require(&self, n: usize) -> (res: Result<(), MineRiderError>)
        ensures
            res is Ok <==> self@.len() >= n,
            res matches Err(e) ==> e.is_protocol(short_read_text(n as int, self@.len() as int)),
    {
        let remaining = self.remaining();
        if remaining < n {
            return Err(
                MineRiderError::Protocol(
                    text_with_two(
                        "unexpected end of packet: need ",
                        n as i128,
                        " bytes, ",
                        remaining as i128,
                        " remain",
                    ),
                ),
            );
        }
        Ok(())
    }

    /// Reads exactly `n` raw bytes; on a short read the cursor stays.
    pub fn read_bytes(&mut self, n: usize) -> (res: Result<&'a [u8], MineRiderError>)
        ensures
            res is Ok <==> old(self)@.len() >= n,
            res matches Ok(out) ==> out@ == old(self)@.take(n as int) && final(self)@ == old(
                self,
            )@.skip(n as int),
            res matches Err(e) ==> final(self)@ == old(self)@ && e.is_protocol(
                short_read_text(n as int, old(self)@.len() as int),
            ),
    {
        proof {
            use_type_invariant(&*self);
        }
        match self.require(n) {
            Ok(_) => {},
            Err(e) => {
                return Err(e);
            },
        }
        let len: usize = self.data.len();
        assert(self.pos + n <= len);
        let out = slice_subrange(self.data, self.pos, self.pos + n);
        assert(out@ =~= old(self)@.take(n as int));
        self.pos = self.pos + n;
        assert(self@ =~= old(self)@.skip(n as int));
        Ok(out)
    }

    /// Reads the number written by the next `n` bytes, most significant first.
    fn read_be(&mut self, n: usize) -> (res: Result<u128, MineRiderError>)
        requires
            n <= 16,
        ensures
            res is Ok <==> old(self)@.len() >= n,
            res matches Ok(v) ==> v == be_value(old(self)@.take(n as int)) && final(self)@ == old(
                self,
            )@.skip(n as int),
            res matches Err(e) ==> final(self)@ == old(self)@ && e.is_protocol(
                short_read_text(n as int, old(self)@.len() as int),
            ),
    {
        match self.read_bytes(n) {
            Ok(data) => Ok(from_be_slice(data)),
            Err(e) => Err(e),
        }
    }

    /// What a reader of a fixed-width number promises: `value` of the next `n`
    /// bytes, or an error that leaves the cursor where it was.
    pub open spec fn reads<T>(
        before: Seq<u8>,
        after: Seq<u8>,
        n: int,
        res: Result<T, MineRiderError>,
        value: T,
    ) -> bool {
        match res {
            Ok(v) => before.len() >= n && v == value && after == before.skip(n),
            Err(e) => before.len() < n && after == before && e.is_protocol(
                short_read_text(n, before.len() as int),
            ),
        }
    }

    /// Reads a single unsigned byte.
    pub fn get_u8(&mut self) -> (res: Result<u8, MineRiderError>)
        ensures
            Self::reads(old(self)@, final(self)@, 1, res, old(self)@[0]),
    {
        match self.read_bytes(1) {
            Ok(data) => Ok(data[0]),
            Err(e) => Err(e),
        }
    }

    /// Reads a boolean (`0x00` false, anything else true).
    pub fn get_bool(&mut self) -> (res: Result<bool, MineRiderError>)
        ensures
            Self::reads(old(self)@, final(self)@, 1, res, old(self)@[0] != 0),
    {
        match self.get_u8() {
            Ok(v) => Ok(v != 0),
            Err(e) => Err(e),
        }
    }

    /// Reads a big-endian signed 16-bit integer.
    pub fn get_i16(&mut self) -> (res: Result<i16, MineRiderError>)
        ensures
            Self::reads(
                old(self)@,
                final(self)@,
                2,
                res,
                (be_value(old(self)@.take(2)) as u16) as i16,
            ),
    {
        match self.get_u16() {
            Ok(v) => Ok(v as i16),
            Err(e) => Err(e),
        }
    }

    /// Reads a big-endian unsigned 16-bit integer.
    pub fn get_u16(&mut self) -> (res: Result<u16, MineRiderError>)
        ensures
            Self::reads(old(self)@, final(self)@, 2, res, be_value(old(self)@.take(2)) as u16),
    {
        match self.read_be(2) {
            Ok(v) => {
                proof {
                    lemma_be_value_bound(old(self)@.take(2));
                    lemma_pow256_values();
                }
                Ok(v as u16)
            },
            Err(e) => Err(e),
        }
    }

    /// Reads a big-endian signed 32-bit integer.
    pub fn get_i32(&mut self) -> (res: Result<i32, MineRiderError>)
        ensures
            Self::reads(
                old(self)@,
                final(self)@,
                4,
                res,
                (be_value(old(self)@.take(4)) as u32) as i32,
            ),
    {
        match self.get_f32() {
            Ok(v) => Ok(v as i32),
            Err(e) => Err(e),
        }
    }

    /// Reads a big-endian signed 64-bit integer.
    pub fn get_i64(&mut self) -> (res: Result<i64, MineRiderError>)
        ensures
            Self::reads(
                old(self)@,
                final(self)@,
                8,
                res,
                (be_value(old(self)@.take(8)) as u64) as i64,
            ),
    {
        match self.get_u64() {
            Ok(v) => Ok(v as i64),
            Err(e) => Err(e),
        }
    }

    /// Reads a big-endian unsigned 64-bit integer.
    pub fn get_u64(&mut self) -> (res: Result<u64, MineRiderError>)
        ensures
            Self::reads(old(self)@, final(self)@, 8, res, be_value(old(self)@.take(8)) as u64),
    {
        match self.read_be(8) {
            Ok(v) => {
                proof {
                    lemma_be_value_bound(old(self)@.take(8));
                    lemma_pow256_values();
                }
                Ok(v as u64)
            },
            Err(e) => Err(e),
        }
    }

    /// Reads a big-endian single-precision number, as its bits.
    pub fn get_f32(&mut self) -> (res: Result<u32, MineRiderError>)
        ensures
            Self::reads(old(self)@, final(self)@, 4, res, be_value(old(self)@.take(4)) as u32),
    {
        match self.read_be(4) {
            Ok(v) => {
                proof {
                    lemma_be_value_bound(old(self)@.take(4));
                    lemma_pow256_values();
                }
                Ok(v as u32)
            },
            Err(e) => Err(e),
        }
    }

    /// Reads a big-endian double-precision number, as its bits.
    pub fn get_f64(&mut self) -> (res: Result<u64, MineRiderError>)
        ensures
            Self::reads(old(self)@, final(self)@, 8, res, be_value(old(self)@.take(8)) as u64),
    {
        self.get_u64()
    }

    /// Reads a Minecraft VarInt.
    pub fn get_varint(&mut self) -> (res: Result<i32, MineRiderError>)
        ensures
            match (leb_front(old(self)@, MAX_VARINT_BYTES as nat), res) {
                (Leb::Number { value, used }, Ok(v)) => v == varint_meaning(value) && final(self)@
                    == old(self)@.skip(used as int),
                (Leb::Truncated, Err(e)) => final(self)@ =~= Seq::<u8>::empty() && e.is_protocol(
                    short_read_text(1, 0),
                ),
                (Leb::TooLong, Err(e)) => final(self)@ == old(self)@.skip(MAX_VARINT_BYTES as int)
                    && e.is_protocol(varint_too_long()),
                _ => false,
            },
    {
        read_varint(self)
    }

    /// Reads a Minecraft VarLong.
    pub fn get_varlong(&mut self) -> (res: Result<i64, MineRiderError>)
        ensures
            match (leb_front(old(self)@, MAX_VARLONG_BYTES as nat), res) {
                (Leb::Number { value, used }, Ok(v)) => v == varlong_meaning(value) && final(self)@
                    == old(self)@.skip(used as int),
                (Leb::Truncated, Err(e)) => final(self)@ =~= Seq::<u8>::empty() && e.is_protocol(
                    short_read_text(1, 0),
                ),
                (Leb::TooLong, Err(e)) => final(self)@ == old(self)@.skip(MAX_VARLONG_BYTES as int)
                    && e.is_protocol("varlong is too long (more than 10 bytes)"@),
                _ => false,
            },
    {
        read_varlong(self)
    }

    /// Reads a VarInt-length-prefixed UTF-8 string.
    ///
    /// Fails on a length outside `0..=4 * MAX_STRING_CHARS`, on a short read,
    /// on invalid UTF-8, and on more than [`MAX_STRING_CHARS`] characters.
    pub fn read_string(&mut self) -> (res: Result<String, MineRiderError>)
        ensures
            match (string_front(old(self)@), res) {
                (Front::Found { value, used }, Ok(s)) => s@ == value && final(self)@ == old(
                    self,
                )@.skip(used as int),
                (Front::Bad { text, used }, Err(e)) => e.is_protocol(text) && final(self)@ == old(
                    self,
                )@.skip(used as int),
                _ => false,
            },
    {
        let ghost start = self@;
        proof {
            lemma_leb_front_bounds(start, MAX_VARINT_BYTES as nat);
        }
        let len: i32 = match self.get_varint() {
            Ok(len) => len,
            Err(e) => {
                assert(start.skip(start.len() as int) =~= Seq::<u8>::empty());
                return Err(e);
            },
        };
        let ghost used = leb_front(start, MAX_VARINT_BYTES as nat)->used;
        if len < 0 || len > 4 * MAX_STRING_CHARS as i32 {
            return Err(
                MineRiderError::Protocol(
                    text_with("string byte length ", len as i128, " out of bounds"),
                ),
            );
        }
        let data = match self.read_bytes(len as usize) {
            Ok(data) => data,
            Err(e) => {
                return Err(e);
            },
        };
        assert(data@ =~= start.subrange(used as int, used + len));
        assert(self@ =~= start.skip(used + len));
        let s = match utf8_text(slice_to_vec(data)) {
            Some(s) => s,
            None => {
                return Err(protocol_error("invalid UTF-8 in string"));
            },
        };
        let chars: usize = s.as_str().unicode_len();
        if chars > MAX_STRING_CHARS {
            return Err(string_too_long(chars));
        }
        Ok(s)
    }

    /// Reads a VarInt-length-prefixed byte array.
    pub fn read_byte_array(&mut self) -> (res: Result<&'a [u8], MineRiderError>)
        ensures
            match (byte_array_front(old(self)@), res) {
                (Front::Found { value, used }, Ok(data)) => data@ == value && final(self)@ == old(
                    self,
                )@.skip(used as int),
                (Front::Bad { text, used }, Err(e)) => e.is_protocol(text) && final(self)@ == old(
                    self,
                )@.skip(used as int),
                _ => false,
            },
    {
        let ghost start = self@;
        proof {
            lemma_leb_front_bounds(start, MAX_VARINT_BYTES as nat);
        }
        let len: i32 = match self.get_varint() {
            Ok(len) => len,
            Err(e) => {
                assert(start.skip(start.len() as int) =~= Seq::<u8>::empty());
                return Err(e);
            },
        };
        let ghost used = leb_front(start, MAX_VARINT_BYTES as nat)->used;
        if len < 0 {
            return Err(
                MineRiderError::Protocol(text_with("negative byte array length ", len as i128, "")),
            );
        }
        let data = match self.read_bytes(len as usize) {
            Ok(data) => data,
            Err(e) => {
                return Err(e);
            },
        };
        assert(data@ =~= start.subrange(used as int, used + len));
        assert(self@ =~= start.skip(used + len));
        Ok(data)
    }

    /// Reads a UUID from 16 big-endian bytes.
    pub fn read_uuid(&mut self) -> (res: Result<u128, MineRiderError>)
        ensures
            Self::reads(old(self)@, final(self)@, 16, res, be_value(old(self)@.take(16)) as u128),
    {
        self.read_be(16)
    }

    /// Reads a packed block position into `(x, y, z)`.
    pub fn read_position(&mut self) -> (res: Result<(i32, i32, i32), MineRiderError>)
        ensures
            Self::reads(
                old(self)@,
                final(self)@,
                8,
                res,
                unpacked_position(be_value(old(self)@.take(8))),
            ),
    {
        match self.get_i64() {
            Ok(packed) => {
                proof {
                    lemma_be_value_bound(old(self)@.take(8));
                    lemma_pow256_values();
                    lemma_u64_i64(be_value(old(self)@.take(8)) as u64);
                }
                Ok(unpack_position(packed))
            },
            Err(e) => Err(e),
        }
    }

    /// Returns the remaining unread bytes without advancing.
    pub fn rest(&self) -> (out: &'a [u8])
        ensures
            out@ == self@,
    {
        proof {
            use_type_invariant(self);
        }
        let out = slice_subrange(self.data, self.pos, self.data.len());
        assert(out@ =~= self@);
        out
    }

    /// Advances past all remaining bytes.
    pub fn skip_all(&mut self)
        ensures
            final(self)@ == Seq::<u8>::empty(),
    {
        self.pos = self.data.len();
        assert(self@ =~= Seq::<u8>::empty());
    }
}

/// What a length-prefixed value at the front of the bytes amounts to, and how
/// many bytes it takes the cursor past.
#[verifier::ext_equal]
pub enum Front<T> {
    Found { value: T, used: nat },
    Bad { text: Seq<char>, used: nat },
}

/// A length-prefixed byte array at the front of `s`.
pub open spec fn byte_array_front(s: Seq<u8>) -> Front<Seq<u8>> {
    match leb_front(s, MAX_VARINT_BYTES as nat) {
        Leb::Number { value, used } => {
            let len = varint_meaning(value);
            if len < 0 {
                Front::Bad { text: "negative byte array length "@ + decimal(len) + ""@, used }
            } else if s.len() - used < len {
                Front::Bad { text: short_read_text(len, s.len() - used), used }
            } else {
                Front::Found {
                    value: s.subrange(used as int, used + len),
                    used: (used + len) as nat,
                }
            }
        },
        Leb::Truncated => Front::Bad { text: short_read_text(1, 0), used: s.len() },
        Leb::TooLong => Front::Bad { text: varint_too_long(), used: MAX_VARINT_BYTES as nat },
    }
}

/// A length-prefixed string at the front of `s`.
pub open spec fn string_front(s: Seq<u8>) -> Front<Seq<char>> {
    match leb_front(s, MAX_VARINT_BYTES as nat) {
        Leb::Number { value, used } => {
            let len = varint_meaning(value);
            let end = (used + len) as nat;
            let data = s.subrange(used as int, used + len);
            if len < 0 || len > 4 * MAX_STRING_CHARS {
                Front::Bad { text: "string byte length "@ + decimal(len) + " out of bounds"@, used }
            } else if s.len() - used < len {
                Front::Bad { text: short_read_text(len, s.len() - used), used }
            } else if !valid_utf8(data) {
                Front::Bad { text: "invalid UTF-8 in string"@, used: end }
            } else if decode_utf8(data).len() > MAX_STRING_CHARS {
                Front::Bad {
                    text: string_too_long_text(decode_utf8(data).len() as int),
                    used: end,
                }
            } else {
                Front::Found { value: decode_utf8(data), used: end }
            }
        },
        Leb::Truncated => Front::Bad { text: short_read_text(1, 0), used: s.len() },
        Leb::TooLong => Front::Bad { text: varint_too_long(), used: MAX_VARINT_BYTES as nat },
    }
}

/// `String::from_utf8` gives the text of valid UTF-8 and refuses anything else.
#[verifier::external_body]
pub(crate) fn utf8_text(data: Vec<u8>) -> (res: Option<String>)
    ensures
        res is Some <==> valid_utf8(data@),
        res matches Some(s) ==> s@ == decode_utf8(data@),
{
    String::from_utf8(data).ok()
}

/// A coordinate reduced to the low bits of its field.
pub open spec fn low_bits(v: int, modulus: int) -> int {
    v % modulus
}

/// The packed form of a block position: x in the top 26 bits, then z in 26,
/// then y in the low 12, each in two's complement.
pub open spec fn packed_position(x: int, y: int, z: int) -> nat {
    (low_bits(x, 0x400_0000) * 0x40_0000_0000 + low_bits(z, 0x400_0000) * 0x1000 + low_bits(
        y,
        0x1000,
    )) as nat
}

/// The position that a packed form stands for.
pub open spec fn unpacked_position(packed: nat) -> (i32, i32, i32) {
    (
        signed(packed as int / 0x40_0000_0000, 0x400_0000) as i32,
        signed(packed as int % 0x1000, 0x1000) as i32,
        signed((packed as int / 0x1000) % 0x400_0000, 0x400_0000) as i32,
    )
}

/// Packs a block position into the Minecraft `i64` representation:
/// 26 bits for x, 26 bits for z, 12 bits for y.
pub fn pack_position(x: i32, y: i32, z: i32) -> (packed: i64)
    ensures
        (packed as u64) as nat == packed_position(x as int, y as int, z as int),
{
    let px: u64 = (x as i64 & 0x3FF_FFFF) as u64;
    let pz: u64 = (z as i64 & 0x3FF_FFFF) as u64;
    let py: u64 = (y as i64 & 0xFFF) as u64;
    proof {
        lemma_mask26(x);
        lemma_mask26(z);
        lemma_mask12(y);
    }
    let packed: u64 = px * 0x40_0000_0000 + pz * 0x1000 + py;
    proof {
        lemma_u64_i64(packed);
    }
    packed as i64
}

proof fn lemma_mask26(x: i32)
    ensures
        0 <= (x as i64 & 0x3FF_FFFF) < 0x400_0000,
        (x as i64 & 0x3FF_FFFF) == x as int % 0x400_0000,
{
    let w: i64 = x as i64;
    let m: i64 = w & 0x3FF_FFFF;
    let q: i64 = w >> 26;
    assert(0 <= m < 0x400_0000 && w == q * 0x400_0000 + m) by (bit_vector)
        requires
            m == w & 0x3FF_FFFF,
            q == w >> 26,
            -0x8000_0000 <= w <= 0x7FFF_FFFF,
    ;
}

proof fn lemma_mask12(y: i32)
    ensures
        0 <= (y as i64 & 0xFFF) < 0x1000,
        (y as i64 & 0xFFF) == y as int % 0x1000,
{
    let w: i64 = y as i64;
    let m: i64 = w & 0xFFF;
    let q: i64 = w >> 12;
    assert(0 <= m < 0x1000 && w == q * 0x1000 + m) by (bit_vector)
        requires
            m == w & 0xFFF,
            q == w >> 12,
            -0x8000_0000 <= w <= 0x7FFF_FFFF,
    ;
}

/// Reads a field of 26 bits as a signed number.
fn signed26(v: u64) -> (r: i32)
    requires
        v < 0x400_0000,
    ensures
        r == signed(v as int, 0x400_0000),
{
    if v >= 0x200_0000 {
        (v as i64 - 0x400_0000) as i32
    } else {
        v as i32
    }
}

/// Unpacks a Minecraft packed position into `(x, y, z)`.
pub fn unpack_position(packed: i64) -> (p: (i32, i32, i32))
    ensures
        p == unpacked_position((packed as u64) as nat),
{
    let n: u64 = packed as u64;
    let low: u64 = n % 0x1000;
    let x: i32 = signed26(n / 0x40_0000_0000);
    let y: i32 = if low >= 0x800 {
        (low as i64 - 0x1000) as i32
    } else {
        low as i32
    };
    let z: i32 = signed26((n / 0x1000) % 0x400_0000);
    (x, y, z)
}

/// Unpacking a packed position gives the position back, for every position
/// whose coordinates fit their fields.
pub proof fn law_position_round_trip(x: i32, y: i32, z: i32)
    requires
        -0x200_0000 <= x < 0x200_0000,
        -0x800 <= y < 0x800,
        -0x200_0000 <= z < 0x200_0000,
    ensures
        unpacked_position(packed_position(x as int, y as int, z as int)) == (x, y, z),
        packed_position(x as int, y as int, z as int) < 0x1_0000_0000_0000_0000,
{
    let px = low_bits(x as int, 0x400_0000);
    let py = low_bits(y as int, 0x1000);
    let pz = low_bits(z as int, 0x400_0000);
    let packed = packed_position(x as int, y as int, z as int) as int;
    assert(px == if x < 0 { x + 0x400_0000 } else { x as int });
    assert(py == if y < 0 { y + 0x1000 } else { y as int });
    assert(pz == if z < 0 { z + 0x400_0000 } else { z as int });
    lemma_fields(px, py, pz, packed);
}

/// The fields of a packed position can be taken apart again.
proof fn lemma_fields(px: int, py: int, pz: int, packed: int)
    by (nonlinear_arith)
    requires
        0 <= px < 0x400_0000,
        0 <= py < 0x1000,
        0 <= pz < 0x400_0000,
        packed == px * 0x40_0000_0000 + pz * 0x1000 + py,
    ensures
        packed / 0x40_0000_0000 == px,
        packed % 0x1000 == py,
        (packed / 0x1000) % 0x400_0000 == pz,
        0 <= packed < 0x1_0000_0000_0000_0000,
{
    assert(packed / 0x1000 == px * 0x400_0000 + pz);
}

/// Reading a string gives back the string that was written, whatever follows.
pub proof fn law_string_round_trip(s: Seq<char>, rest: Seq<u8>)
    requires
        s.len() <= MAX_STRING_CHARS,
    ensures
        string_front(string_bytes(s) + rest) == (Front::Found {
            value: s,
            used: string_bytes(s).len(),
        }),
{
    broadcast use {vstd::utf8::encode_utf8_valid_utf8, vstd::utf8::encode_utf8_decode_utf8};

    let data = encode_utf8(s);
    lemma_utf8_len(s);
    let len = data.len() as i32;
    law_varint_round_trip(len, data + rest);
    let all = string_bytes(s) + rest;
    assert(all =~= varint_bytes(len) + (data + rest));
    let used = varint_bytes(len).len();
    assert(all.subrange(used as int, used + len) =~= data);
}

/// Reading a byte array gives back the bytes that were written, whatever
/// follows.
pub proof fn law_byte_array_round_trip(data: Seq<u8>, rest: Seq<u8>)
    requires
        data.len() <= i32::MAX,
    ensures
        byte_array_front(byte_array_bytes(data) + rest) == (Front::Found {
            value: data,
            used: byte_array_bytes(data).len(),
        }),
{
    let len = data.len() as i32;
    law_varint_round_trip(len, data + rest);
    let all = byte_array_bytes(data) + rest;
    assert(all =~= varint_bytes(len) + (data + rest));
    let used = varint_bytes(len).len();
    assert(all.subrange(used as int, used + len) =~= data);
}

/// Every fixed-width read undoes the write of the same width: the signed and
/// unsigned integers, the bits of both floating-point formats, and UUIDs.
pub proof fn law_fixed_width_round_trip(
    a: i16,
    b: u16,
    c: i32,
    d: i64,
    e: u64,
    f: u32,
    g: u128,
)
    ensures
        (be_value(be_bytes((a as u16) as nat, 2)) as u16) as i16 == a,
        be_value(be_bytes(b as nat, 2)) as u16 == b,
        (be_value(be_bytes((c as u32) as nat, 4)) as u32) as i32 == c,
        (be_value(be_bytes((d as u64) as nat, 8)) as u64) as i64 == d,
        be_value(be_bytes(e as nat, 8)) as u64 == e,
        be_value(be_bytes(f as nat, 4)) as u32 == f,
        be_value(be_bytes(g as nat, 16)) as u128 == g,
{
    lemma_pow256_values();
    lemma_i16_u16(a);
    lemma_i32_u32(c);
    lemma_i64_u64(d);
    lemma_be_round_trip((a as u16) as nat, 2);
    lemma_be_round_trip(b as nat, 2);
    lemma_be_round_trip((c as u32) as nat, 4);
    lemma_be_round_trip((d as u64) as nat, 8);
    lemma_be_round_trip(e as nat, 8);
    lemma_be_round_trip(f as nat, 4);
    lemma_be_round_trip(g as nat, 16);
}

} // verus!
