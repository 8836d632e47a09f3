//! Access to the `bytes` crate's growable buffer.
use bytes::BufMut;
use bytes::{Bytes, BytesMut};
use vstd::prelude::*;

use crate::protocol::big_endian::be_bytes;

verus! {

/// The growable byte buffer of the `bytes` crate.
#[verifier::external_type_specification]
#[verifier::external_body]
pub struct ExBytesMut(BytesMut);

/// The immutable byte buffer of the `bytes` crate.
#[verifier::external_type_specification]
#[verifier::external_body]
pub struct ExBytes(Bytes);

/// The bytes that a `BytesMut` holds.
pub uninterp spec fn contents(buf: BytesMut) -> Seq<u8>;

/// The bytes that a `Bytes` holds.
pub uninterp spec fn frozen(buf: Bytes) -> Seq<u8>;

/// A buffer of `len` bytes can take `extra` more without its capacity, which
/// doubles as it grows, passing what an allocation may hold.
pub open spec fn has_room(len: nat, extra: nat) -> bool {
    len + extra <= isize::MAX / 2
}

/// `BytesMut::new` makes an empty buffer.
#[verifier::external_body]
pub(crate) fn buf_new() -> (buf: BytesMut)
    ensures
        contents(buf) == Seq::<u8>::empty(),
{
    BytesMut::new()
}

/// `BytesMut::to_vec`, by way of the slice it holds, copies the bytes out.
#[verifier::external_body]
pub(crate) fn buf_to_vec(buf: &BytesMut) -> (out: Vec<u8>)
    ensures
        out@ == contents(*buf),
{
    buf.to_vec()
}

/// `BufMut::put_u8` appends one byte.
#[verifier::external_body]
pub(crate) fn buf_put_u8(buf: &mut BytesMut, v: u8)
    requires
        has_room(contents(*old(buf)).len(), 1),
    ensures
        contents(*final(buf)) == contents(*old(buf)).push(v),
{
    buf.put_u8(v);
}

/// `BufMut::put_i16` appends two bytes, most significant first.
#[verifier::external_body]
pub(crate) fn buf_put_i16(buf: &mut BytesMut, v: i16)
    requires
        has_room(contents(*old(buf)).len(), 2),
    ensures
        contents(*final(buf)) == contents(*old(buf)) + be_bytes((v as u16) as nat, 2),
{
    buf.put_i16(v);
}

/// `BufMut::put_u16` appends two bytes, most significant first.
#[verifier::external_body]
pub(crate) fn buf_put_u16(buf: &mut BytesMut, v: u16)
    requires
        has_room(contents(*old(buf)).len(), 2),
    ensures
        contents(*final(buf)) == contents(*old(buf)) + be_bytes(v as nat, 2),
{
    buf.put_u16(v);
}

/// `BufMut::put_i32` appends four bytes, most significant first.
#[verifier::external_body]
pub(crate) fn buf_put_i32(buf: &mut BytesMut, v: i32)
    requires
        has_room(contents(*old(buf)).len(), 4),
    ensures
        contents(*final(buf)) == contents(*old(buf)) + be_bytes((v as u32) as nat, 4),
{
    buf.put_i32(v);
}

/// `BufMut::put_u32` appends four bytes, most significant first. The crate
/// writes a single-precision number as `put_u32` of its bits.
#[verifier::external_body]
pub(crate) fn buf_put_u32(buf: &mut BytesMut, v: u32)
    requires
        has_room(contents(*old(buf)).len(), 4),
    ensures
        contents(*final(buf)) == contents(*old(buf)) + be_bytes(v as nat, 4),
{
    buf.put_u32(v);
}

/// `BufMut::put_i64` appends eight bytes, most significant first.
#[verifier::external_body]
pub(crate) fn buf_put_i64(buf: &mut BytesMut, v: i64)
    requires
        has_room(contents(*old(buf)).len(), 8),
    ensures
        contents(*final(buf)) == contents(*old(buf)) + be_bytes((v as u64) as nat, 8),
{
    buf.put_i64(v);
}

/// `BufMut::put_u64` appends eight bytes, most significant first. The crate
/// writes a double-precision number as `put_u64` of its bits.
#[verifier::external_body]
pub(crate) fn buf_put_u64(buf: &mut BytesMut, v: u64)
    requires
        has_room(contents(*old(buf)).len(), 8),
    ensures
        contents(*final(buf)) == contents(*old(buf)) + be_bytes(v as nat, 8),
{
    buf.put_u64(v);
}

/// `BytesMut::extend_from_slice` appends a copy of the slice.
#[verifier::external_body]
pub(crate) fn buf_extend(buf: &mut BytesMut, data: &[u8])
    requires
        has_room(contents(*old(buf)).len(), data@.len()),
    ensures
        contents(*final(buf)) == contents(*old(buf)) + data@,
{
    buf.extend_from_slice(data);
}

/// `BytesMut::freeze` keeps the bytes and gives up changing them.
#[verifier::external_body]
pub(crate) fn buf_freeze(buf: BytesMut) -> (out: Bytes)
    ensures
        frozen(out) == contents(buf),
{
    buf.freeze()
}

} // verus!
