//! Packet representation.
use bytes::BytesMut;
use vstd::prelude::*;

use crate::protocol::buffer::PacketWriter;
use crate::protocol::bytes_io::{buf_new, contents};

verus! {

/// A decoded packet: a numeric id plus the payload bytes excluding the id.
pub struct RawPacket {
    /// VarInt packet id.
    pub id: i32,
    /// Payload bytes, excluding the leading packet id.
    pub payload: BytesMut,
}

impl RawPacket {
    /// Creates a packet with the given id and payload.
    pub fn new(id: i32, payload: BytesMut) -> (p: Self)
        ensures
            p.id == id,
            p.payload == payload,
    {
        RawPacket { id, payload }
    }

    /// Creates a packet with an empty payload.
    pub fn empty(id: i32) -> (p: Self)
        ensures
            p.id == id,
            contents(p.payload) == Seq::<u8>::empty(),
    {
        Self::new(id, buf_new())
    }

    /// Builds a packet by serializing fields into a [`PacketWriter`].
    pub fn build(id: i32, f: impl FnOnce(PacketWriter) -> PacketWriter) -> (p: Self)
        requires
            forall|w: PacketWriter| w@ == Seq::<u8>::empty() ==> call_requires(f, (w,)),
        ensures
            p.id == id,
            exists|w: PacketWriter, out: PacketWriter| #[trigger]
                call_ensures(f, (w,), out) && w@ == Seq::<u8>::empty() && out@ == contents(
                    p.payload,
                ),
    {
        let w = PacketWriter::new();
        let out = f(w);
        Self::new(id, out.into_inner())
    }
}

} // verus!
