//! How a column of sections is laid out in bytes, and that decoding reads it so.
use crate::minecraft::palette::long_count;
use crate::minecraft::world::{
    chunk_of, container_front, count_front, data_front, longs_front, palette_front, section_front,
    sections_front, ChunkModel, ContainerModel, PacketMapChunk, Parsed, SectionModel,
};
use crate::protocol::big_endian::{
    be_bytes, be_value, lemma_be_bytes_len, lemma_be_round_trip, lemma_pow256_values,
};
use crate::protocol::varint::{law_varint_round_trip, varint_bytes};
use vstd::arithmetic::power2::pow2;
use vstd::prelude::*;

verus! {

/// Longs, each as eight bytes from the high end, one after the other.
pub open spec fn longs_bytes(data: Seq<u64>) -> Seq<u8>
    decreases data.len(),
{
    if data.len() == 0 {
        Seq::empty()
    } else {
        be_bytes(data[0] as nat, 8) + longs_bytes(data.drop_first())
    }
}

/// Numbers, each as a VarInt, one after the other.
pub open spec fn varints_bytes(values: Seq<u32>) -> Seq<u8>
    decreases values.len(),
{
    if values.len() == 0 {
        Seq::empty()
    } else {
        varint_bytes(values[0] as i32) + varints_bytes(values.drop_first())
    }
}

/// Every value can be written as a VarInt that is not negative.
pub open spec fn writable_values(values: Seq<u32>) -> bool {
    forall|i: int| 0 <= i < values.len() ==> (#[trigger] values[i]) <= i32::MAX
}

proof fn lemma_count(v: u32, what: Seq<char>, rest: Seq<u8>)
    requires
        v <= i32::MAX,
    ensures
        count_front(varint_bytes(v as i32) + rest, what) == (Parsed::Done { value: v, rest }),
{
    law_varint_round_trip(v as i32, rest);
    let s = varint_bytes(v as i32) + rest;
    assert(s.skip(varint_bytes(v as i32).len() as int) =~= rest);
}

proof fn lemma_palette(values: Seq<u32>, got: Seq<u32>, rest: Seq<u8>)
    requires
        writable_values(values),
    ensures
        palette_front(varints_bytes(values) + rest, got, values.len()) == (Parsed::Done {
            value: got + values,
            rest,
        }),
    decreases values.len(),
{
    if values.len() == 0 {
        assert(varints_bytes(values) + rest =~= rest);
        assert(got + values =~= got);
    } else {
        let tail = values.drop_first();
        assert(writable_values(tail)) by {
            assert forall|i: int| 0 <= i < tail.len() implies (#[trigger] tail[i]) <= i32::MAX by {
                assert(tail[i] == values[i + 1]);
            }
        }
        lemma_count(values[0], "palette value"@, varints_bytes(tail) + rest);
        assert(varints_bytes(values) + rest =~= varint_bytes(values[0] as i32) + (varints_bytes(tail)
            + rest));
        lemma_palette(tail, got.push(values[0]), rest);
        assert(got.push(values[0]) + tail =~= got + values);
    }
}

proof fn lemma_longs(data: Seq<u64>, got: Seq<u64>, rest: Seq<u8>)
    ensures
        longs_front(longs_bytes(data) + rest, got, data.len()) == (Parsed::Done {
            value: got + data,
            rest,
        }),
    decreases data.len(),
{
    if data.len() == 0 {
        assert(longs_bytes(data) + rest =~= rest);
        assert(got + data =~= got);
    } else {
        let tail = data.drop_first();
        let s = longs_bytes(data) + rest;
        lemma_be_bytes_len(data[0] as nat, 8);
        lemma_pow256_values();
        lemma_be_round_trip(data[0] as nat, 8);
        assert(s.take(8) =~= be_bytes(data[0] as nat, 8));
        assert(s.skip(8) =~= longs_bytes(tail) + rest);
        lemma_longs(tail, got.push(data[0]), rest);
        assert(got.push(data[0]) + tail =~= got + data);
    }
}

proof fn lemma_data(bits: u8, data: Seq<u64>, entries: nat, rest: Seq<u8>)
    requires
        data.len() == long_count(bits as nat, entries),
        data.len() <= i32::MAX,
    ensures
        data_front(varint_bytes(data.len() as i32) + longs_bytes(data) + rest, bits, entries) == (
        Parsed::Done { value: data, rest }),
{
    let s = varint_bytes(data.len() as i32) + longs_bytes(data) + rest;
    lemma_count(data.len() as u32, "palette data length"@, longs_bytes(data) + rest);
    assert(s =~= varint_bytes(data.len() as i32) + (longs_bytes(data) + rest));
    lemma_longs(data, Seq::empty(), rest);
    assert(Seq::<u64>::empty() + data =~= data);
}

/// How many longs hold the entries: as many as are needed where each long holds
/// as many entries as fit it whole.
pub proof fn law_longs_hold_whole_entries(bits: nat, entries: nat)
    requires
        1 <= bits <= 32,
    ensures
        long_count(bits, entries) * (64nat / bits) >= entries,
        entries > 0 ==> (long_count(bits, entries) - 1) * (64nat / bits) < entries,
        (64nat / bits) * bits <= 64,
        (64nat / bits + 1) * bits > 64,
{
    let per = 64nat / bits;
    assert(per >= 1 && per * bits <= 64 && (per + 1) * bits > 64) by (nonlinear_arith)
        requires
            per == 64nat / bits,
            1 <= bits <= 32,
    ;
    let n = (entries + per - 1) as nat / per;
    assert(n * per >= entries && (entries > 0 ==> (n - 1) * per < entries)) by (nonlinear_arith)
        requires
            n == (entries + per - 1) as nat / per,
            per >= 1,
            entries >= 0,
    ;
}

/// A container of one value: a zero, the value, and no data.
pub proof fn law_one_value_is_read(
    v: u32,
    entries: nat,
    min_bits: u8,
    max_bits: u8,
    rest: Seq<u8>,
)
    requires
        v <= i32::MAX,
    ensures
        container_front(
            seq![0u8] + varint_bytes(v as i32) + seq![0u8] + rest,
            entries,
            min_bits,
            max_bits,
        ) == (Parsed::Done { value: ContainerModel::Single(v), rest }),
{
    let s = seq![0u8] + varint_bytes(v as i32) + seq![0u8] + rest;
    let after = varint_bytes(v as i32) + (seq![0u8] + rest);
    assert(s.skip(1) =~= after);
    lemma_count(v, "single palette value"@, seq![0u8] + rest);
    lemma_count(0, "single palette data length"@, rest);
    assert(varint_bytes(0) =~= seq![0u8]);
}

/// A container with a palette: the width, the palette with its length, and the
/// data with its length. Widths below the least count as the least.
pub proof fn law_palettes_are_read(
    width: u8,
    palette: Seq<u32>,
    data: Seq<u64>,
    entries: nat,
    min_bits: u8,
    max_bits: u8,
    rest: Seq<u8>,
)
    requires
        1 <= width <= max_bits <= 32,
        1 <= min_bits <= max_bits,
        writable_values(palette),
        palette.len() <= i32::MAX,
        data.len() <= i32::MAX,
        ({
            let bits = if width < min_bits {
                min_bits
            } else {
                width
            };
            &&& 1 <= palette.len() <= pow2(bits as nat)
            &&& data.len() == long_count(bits as nat, entries)
        }),
    ensures
        container_front(
            seq![width] + varint_bytes(palette.len() as i32) + varints_bytes(palette)
                + varint_bytes(data.len() as i32) + longs_bytes(data) + rest,
            entries,
            min_bits,
            max_bits,
        ) == (Parsed::Done {
            value: ContainerModel::Indirect {
                bits: if width < min_bits {
                    min_bits
                } else {
                    width
                },
                palette,
                data,
            },
            rest,
        }),
{
    let bits = if width < min_bits {
        min_bits
    } else {
        width
    };
    let tail = varint_bytes(data.len() as i32) + longs_bytes(data) + rest;
    let s = seq![width] + varint_bytes(palette.len() as i32) + varints_bytes(palette)
        + varint_bytes(data.len() as i32) + longs_bytes(data) + rest;
    assert(s.skip(1) =~= varint_bytes(palette.len() as i32) + (varints_bytes(palette) + tail));
    lemma_count(palette.len() as u32, "palette length"@, varints_bytes(palette) + tail);
    lemma_palette(palette, Seq::empty(), tail);
    assert(Seq::<u32>::empty() + palette =~= palette);
    lemma_data(bits, data, entries, rest);
}

/// A container without a palette: the width and the data with its length.
pub proof fn law_direct_values_are_read(
    width: u8,
    data: Seq<u64>,
    entries: nat,
    min_bits: u8,
    max_bits: u8,
    rest: Seq<u8>,
)
    requires
        max_bits < width <= 32,
        data.len() == long_count(width as nat, entries),
        data.len() <= i32::MAX,
    ensures
        container_front(
            seq![width] + varint_bytes(data.len() as i32) + longs_bytes(data) + rest,
            entries,
            min_bits,
            max_bits,
        ) == (Parsed::Done { value: ContainerModel::Direct { bits: width, data }, rest }),
{
    let s = seq![width] + varint_bytes(data.len() as i32) + longs_bytes(data) + rest;
    assert(s.skip(1) =~= varint_bytes(data.len() as i32) + longs_bytes(data) + rest);
    lemma_data(width, data, entries, rest);
}

/// A section: the number of blocks that are not air as two bytes, then the block
/// states of 4096 blocks, then the biomes of 64 cells. A palette of block states
/// has four to eight bits, one of biomes one to three.
pub proof fn law_sections_are_read(
    count: u16,
    states: Seq<u8>,
    block_states: ContainerModel,
    cells: Seq<u8>,
    biomes: ContainerModel,
    rest: Seq<u8>,
)
    requires
        count <= 4096,
        container_front(states + (cells + rest), 4096, 4, 8) == (Parsed::Done {
            value: block_states,
            rest: cells + rest,
        }),
        container_front(cells + rest, 64, 1, 3) == (Parsed::Done { value: biomes, rest }),
    ensures
        section_front(be_bytes(count as nat, 2) + states + cells + rest) == (Parsed::Done {
            value: SectionModel { non_air_blocks: count, block_states, biomes },
            rest,
        }),
{
    let s = be_bytes(count as nat, 2) + states + cells + rest;
    lemma_be_bytes_len(count as nat, 2);
    lemma_pow256_values();
    lemma_be_round_trip(count as nat, 2);
    assert(s.take(2) =~= be_bytes(count as nat, 2));
    assert(be_value(s.take(2)) == count);
    assert(((count as u16) as i16) == count as int) by (bit_vector)
        requires
            count <= 4096,
    ;
    assert(s.skip(2) =~= states + (cells + rest));
}

/// A column is its sections from the lowest up, one after the other, and nothing
/// else; it stands where the packet says.
pub proof fn law_columns_are_their_sections(
    packet: PacketMapChunk,
    parts: Seq<Seq<u8>>,
    sections: Seq<SectionModel>,
)
    requires
        parts.len() == sections.len(),
        packet.chunk_data@ == joined_parts(parts, 0),
        forall|i: int|
            0 <= i < parts.len() ==> section_front(#[trigger] joined_parts(parts, i)) == (
            Parsed::Done { value: sections[i], rest: joined_parts(parts, i + 1) }),
    ensures
        chunk_of(packet, sections.len()) == Ok::<ChunkModel, Seq<char>>(
            (ChunkModel { x: packet.x, z: packet.z, sections }),
        ),
{
    lemma_sections(parts, sections, 0);
    assert(sections.take(0) =~= Seq::empty());
    assert(joined_parts(parts, parts.len() as int) =~= Seq::empty());
}

/// Parts from one on, one after the other.
pub open spec fn joined_parts(parts: Seq<Seq<u8>>, from: int) -> Seq<u8>
    decreases parts.len() - from,
{
    if from < 0 || from >= parts.len() {
        Seq::empty()
    } else {
        parts[from] + joined_parts(parts, from + 1)
    }
}

proof fn lemma_sections(parts: Seq<Seq<u8>>, sections: Seq<SectionModel>, i: int)
    requires
        0 <= i <= parts.len(),
        parts.len() == sections.len(),
        forall|k: int|
            0 <= k < parts.len() ==> section_front(#[trigger] joined_parts(parts, k)) == (
            Parsed::Done { value: sections[k], rest: joined_parts(parts, k + 1) }),
    ensures
        sections_front(joined_parts(parts, i), sections.take(i), (parts.len() - i) as nat) == (
        Parsed::Done { value: sections, rest: Seq::<u8>::empty() }),
    decreases parts.len() - i,
{
    if i < parts.len() {
        assert(sections.take(i).push(sections[i]) =~= sections.take(i + 1));
        lemma_sections(parts, sections, i + 1);
    } else {
        assert(sections.take(i) =~= sections);
    }
}

} // verus!
