//! Handshake packet: protocol version, address, next state.
use crate::error::MineRiderError;
use crate::protocol::big_endian::{be_bytes, be_value, lemma_be_bytes_len, lemma_be_round_trip, lemma_pow256_values};
use crate::protocol::buffer::{
    law_string_round_trip, short_read_text, string_bytes, string_front, string_too_long_text,
    Front, PacketReader, PacketWriter, MAX_STRING_CHARS,
};
use crate::protocol::bytes_io::has_room;
use crate::protocol::varint::{
    leb_front, law_varint_round_trip, varint_bytes, varint_meaning, varint_too_long, Leb,
    MAX_VARINT_BYTES,
};
use vstd::prelude::*;

verus! {

/// Next-state value for the login state.
pub const NEXT_STATE_LOGIN: i32 = 2;

/// The first packet of a connection.
#[derive(Debug)]
pub struct PacketSetProtocol {
    pub protocol_version: i32,
    pub server_host: String,
    pub server_port: u16,
    pub next_state: i32,
}

/// The packet's bytes.
pub open spec fn handshake_bytes(p: PacketSetProtocol) -> Seq<u8> {
    varint_bytes(p.protocol_version) + string_bytes(p.server_host@) + be_bytes(
        p.server_port as nat,
        2,
    ) + varint_bytes(p.next_state)
}

/// The handshake that asks for the login state.
pub fn login_handshake(protocol_version: i32, server_address: &str, server_port: u16) -> (p:
    PacketSetProtocol)
    ensures
        p.protocol_version == protocol_version,
        p.server_host@ == server_address@,
        p.server_port == server_port,
        p.next_state == NEXT_STATE_LOGIN,
{
    PacketSetProtocol {
        protocol_version,
        server_host: server_address.to_owned(),
        server_port,
        next_state: NEXT_STATE_LOGIN,
    }
}

impl PacketSetProtocol {
    /// Appends the packet's bytes; fails where the host is too long for a
    /// string.
    pub fn encode(&self, out: &mut PacketWriter) -> (res: Result<(), MineRiderError>)
        requires
            has_room(
                old(out)@.len(),
                if self.server_host@.len() <= MAX_STRING_CHARS {
                    handshake_bytes(*self).len()
                } else {
                    varint_bytes(self.protocol_version).len()
                },
            ),
        ensures
            match res {
                Ok(_) => self.server_host@.len() <= MAX_STRING_CHARS && final(out)@ == old(out)@
                    + handshake_bytes(*self),
                Err(e) => self.server_host@.len() > MAX_STRING_CHARS && e.is_protocol(
                    string_too_long_text(self.server_host@.len() as int),
                ) && final(out)@ == old(out)@ + varint_bytes(self.protocol_version),
            },
    {
        out.put_varint(self.protocol_version);
        proof {
            law_varint_round_trip(self.protocol_version, Seq::empty());
        }
        match out.put_string(self.server_host.as_str()) {
            Ok(_) => {},
            Err(e) => return Err(e),
        }
        proof {
            crate::protocol::buffer::lemma_utf8_len(self.server_host@);
            law_varint_round_trip(
                vstd::utf8::encode_utf8(self.server_host@).len() as i32,
                Seq::empty(),
            );
            lemma_be_bytes_len(self.server_port as nat, 2);
        }
        out.put_u16(self.server_port);
        out.put_varint(self.next_state);
        assert(out@ =~= old(out)@ + handshake_bytes(*self));
        Ok(())
    }

    /// Reads a packet.
    pub fn decode(input: &mut PacketReader<'_>) -> (res: Result<PacketSetProtocol, MineRiderError>)
        ensures
            match (res, handshake_front(old(input)@)) {
                (Ok(p), Ok((m, rest))) => p.protocol_version == m.0 && p.server_host@ == m.1
                    && p.server_port == m.2 && p.next_state == m.3 && final(input)@ == rest,
                (Err(e), Err((text, rest))) => e.is_protocol(text) && final(input)@ == rest,
                _ => false,
            },
    {
        let protocol_version: i32 = match input.get_varint() {
            Ok(v) => v,
            Err(e) => return Err(e),
        };
        let server_host = match input.read_string() {
            Ok(v) => v,
            Err(e) => return Err(e),
        };
        let server_port: u16 = match input.get_u16() {
            Ok(v) => v,
            Err(e) => return Err(e),
        };
        let next_state: i32 = match input.get_varint() {
            Ok(v) => v,
            Err(e) => return Err(e),
        };
        Ok(PacketSetProtocol { protocol_version, server_host, server_port, next_state })
    }
}

/// A VarInt off the front of the bytes, or what is wrong, and what is left.
pub open spec fn int_front(s: Seq<u8>) -> Result<(int, Seq<u8>), (Seq<char>, Seq<u8>)> {
    match leb_front(s, MAX_VARINT_BYTES as nat) {
        Leb::Number { value, used } => Ok((varint_meaning(value), s.skip(used as int))),
        Leb::Truncated => Err((short_read_text(1, 0), Seq::empty())),
        Leb::TooLong => Err((varint_too_long(), s.skip(MAX_VARINT_BYTES as int))),
    }
}

/// A handshake off the front of the bytes, or what is wrong, and what is left:
/// version, host, port and next state.
pub open spec fn handshake_front(s: Seq<u8>) -> Result<
    ((int, Seq<char>, u16, int), Seq<u8>),
    (Seq<char>, Seq<u8>),
> {
    match int_front(s) {
        Err(wrong) => Err(wrong),
        Ok((version, s)) => match string_front(s) {
            Front::Bad { text, used } => Err((text, s.skip(used as int))),
            Front::Found { value: host, used } => {
                let s = s.skip(used as int);
                if s.len() < 2 {
                    Err((short_read_text(2, s.len() as int), s))
                } else {
                    match int_front(s.skip(2)) {
                        Err(wrong) => Err(wrong),
                        Ok((next, rest)) => Ok(
                            ((version, host, be_value(s.take(2)) as u16, next), rest),
                        ),
                    }
                }
            },
        },
    }
}

/// What was written is read back, and what follows it is left.
pub proof fn law_handshake_round_trip(p: PacketSetProtocol, rest: Seq<u8>)
    requires
        p.server_host@.len() <= MAX_STRING_CHARS,
    ensures
        handshake_front(handshake_bytes(p) + rest) == Ok::<
            ((int, Seq<char>, u16, int), Seq<u8>),
            (Seq<char>, Seq<u8>),
        >(((p.protocol_version as int, p.server_host@, p.server_port, p.next_state as int), rest)),
{
    let a = varint_bytes(p.protocol_version);
    let b = string_bytes(p.server_host@);
    let c = be_bytes(p.server_port as nat, 2);
    let d = varint_bytes(p.next_state);
    let s = handshake_bytes(p) + rest;
    assert(s =~= a + (b + (c + (d + rest))));
    law_varint_round_trip(p.protocol_version, b + (c + (d + rest)));
    assert(s.skip(a.len() as int) =~= b + (c + (d + rest)));
    law_string_round_trip(p.server_host@, c + (d + rest));
    assert((b + (c + (d + rest))).skip(b.len() as int) =~= c + (d + rest));
    lemma_be_bytes_len(p.server_port as nat, 2);
    lemma_pow256_values();
    lemma_be_round_trip(p.server_port as nat, 2);
    assert((c + (d + rest)).take(2) =~= c);
    assert((c + (d + rest)).skip(2) =~= d + rest);
    law_varint_round_trip(p.next_state, rest);
    assert((d + rest).skip(d.len() as int) =~= rest);
}

} // verus!
