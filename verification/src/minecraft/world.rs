//! Dimension-aware chunk storage and 1.21.4 paletted-container decoding.
use crate::error::MineRiderError;
use crate::minecraft::collision::{span, Aabb, BlockBox};
use crate::minecraft::configuration::{floor_div_16, floor_mod_16, DimensionType};
use crate::minecraft::hud::BlockPosition;
use crate::minecraft::nbt::Nbt;
use crate::minecraft::palette::{
    all_fit, bit_length, bits_of, law_packed_values_read_back, lemma_bit_length,
    long_count, longs_for, pack_all, packed_longs, packed_value, power_of_two, unpacked,
};
use crate::minecraft::shapes::{BlockTables, BoxRange};
use crate::protocol::big_endian::be_value;
use crate::protocol::buffer::{short_read_text, PacketReader};
use crate::protocol::varint::{leb_front, varint_meaning, varint_too_long, Leb, MAX_VARINT_BYTES};
use crate::sorted_map::SortedMap;
use crate::text_build::{append_int, decimal, text_with, text_with_two};
use vstd::arithmetic::power2::{lemma2_to64, pow2};
use vstd::prelude::*;

verus! {

/// Blocks in a section of sixteen layers.
pub const BLOCKS_PER_SECTION: usize = 4096;

/// Biome cells in a section.
pub const BIOMES_PER_SECTION: usize = 64;

/// The widest packed value.
pub const MAX_PALETTE_BITS: u8 = 32;

/// What a read off the front of some bytes gives: a value or what is wrong, and
/// the bytes that are left.
#[verifier::ext_equal]
pub enum Parsed<T> {
    Done { value: T, rest: Seq<u8> },
    Failed { text: Seq<char>, rest: Seq<u8> },
}

/// What a container of palette values holds.
#[verifier::ext_equal]
pub enum ContainerModel {
    Single(u32),
    Indirect { bits: u8, palette: Seq<u32>, data: Seq<u64> },
    Direct { bits: u8, data: Seq<u64> },
}

impl ContainerModel {
    /// Packed values are between one and thirty-two bits wide.
    pub open spec fn valid(self) -> bool {
        match self {
            ContainerModel::Single(_) => true,
            ContainerModel::Indirect { bits, .. } => 1 <= bits <= MAX_PALETTE_BITS,
            ContainerModel::Direct { bits, .. } => 1 <= bits <= MAX_PALETTE_BITS,
        }
    }

    /// The value at an index; none where the data end before it, or where it
    /// points past the palette.
    pub open spec fn value(self, index: nat) -> Option<u32> {
        match self {
            ContainerModel::Single(v) => Some(v),
            ContainerModel::Indirect { bits, palette, data } => match unpacked(
                bits as nat,
                data,
                index,
            ) {
                Some(i) => if i < palette.len() {
                    Some(palette[i as int])
                } else {
                    None
                },
                None => None,
            },
            ContainerModel::Direct { bits, data } => unpacked(bits as nat, data, index),
        }
    }
}

/// A non-negative VarInt off the front of the bytes.
pub open spec fn count_front(s: Seq<u8>, what: Seq<char>) -> Parsed<u32> {
    match leb_front(s, MAX_VARINT_BYTES as nat) {
        Leb::Number { value, used } => {
            let v = varint_meaning(value);
            if v < 0 {
                Parsed::Failed { text: negative_text(what, v as int), rest: s.skip(used as int) }
            } else {
                Parsed::Done { value: v as u32, rest: s.skip(used as int) }
            }
        },
        Leb::Truncated => Parsed::Failed { text: short_read_text(1, 0), rest: Seq::empty() },
        Leb::TooLong => Parsed::Failed {
            text: varint_too_long(),
            rest: s.skip(MAX_VARINT_BYTES as int),
        },
    }
}

/// How a negative number is reported where none may stand.
pub open spec fn negative_text(what: Seq<char>, v: int) -> Seq<char> {
    "negative "@ + what + ": "@ + decimal(v)
}

/// Palette values off the front of the bytes, after those `got` already.
pub open spec fn palette_front(s: Seq<u8>, got: Seq<u32>, more: nat) -> Parsed<Seq<u32>>
    decreases more,
{
    if more == 0 {
        Parsed::Done { value: got, rest: s }
    } else {
        match count_front(s, "palette value"@) {
            Parsed::Done { value, rest } => palette_front(
                rest,
                got.push(value),
                (more - 1) as nat,
            ),
            Parsed::Failed { text, rest } => Parsed::Failed { text, rest },
        }
    }
}

/// Big-endian longs off the front of the bytes, after those `got` already.
pub open spec fn longs_front(s: Seq<u8>, got: Seq<u64>, more: nat) -> Parsed<Seq<u64>>
    decreases more,
{
    if more == 0 {
        Parsed::Done { value: got, rest: s }
    } else if s.len() < 8 {
        Parsed::Failed { text: short_read_text(8, s.len() as int), rest: s }
    } else {
        longs_front(s.skip(8), got.push(be_value(s.take(8)) as u64), (more - 1) as nat)
    }
}

/// The count of longs and the longs themselves, off the front of the bytes:
/// exactly as many as the entries take.
pub open spec fn data_front(s: Seq<u8>, bits: u8, entries: nat) -> Parsed<Seq<u64>> {
    let expected = long_count(bits as nat, entries);
    match count_front(s, "palette data length"@) {
        Parsed::Done { value, rest } => if value != expected {
            Parsed::Failed {
                text: "paletted container has "@ + decimal(value as int) + " longs, expected "@
                    + decimal(expected as int) + ""@,
                rest,
            }
        } else {
            longs_front(rest, Seq::empty(), expected)
        },
        Parsed::Failed { text, rest } => Parsed::Failed { text, rest },
    }
}

/// A paletted container off the front of the bytes: one value for all entries,
/// indices into a palette of at most two to the `bits` values, or the values
/// themselves.
pub open spec fn container_front(s: Seq<u8>, entries: nat, min_bits: u8, max_bits: u8) -> Parsed<
    ContainerModel,
> {
    if s.len() == 0 {
        Parsed::Failed { text: short_read_text(1, 0), rest: s }
    } else if s[0] == 0 {
        single_front(s.skip(1))
    } else if s[0] > MAX_PALETTE_BITS {
        Parsed::Failed {
            text: "paletted container uses unsupported "@ + decimal(s[0] as int) + " bits"@,
            rest: s.skip(1),
        }
    } else if s[0] <= max_bits {
        indirect_front(
            s.skip(1),
            entries,
            if s[0] >= min_bits {
                s[0]
            } else {
                min_bits
            },
        )
    } else {
        match data_front(s.skip(1), s[0], entries) {
            Parsed::Done { value, rest } => Parsed::Done {
                value: ContainerModel::Direct { bits: s[0], data: value },
                rest,
            },
            Parsed::Failed { text, rest } => Parsed::Failed { text, rest },
        }
    }
}

/// The one value of a container, off the front of the bytes.
pub open spec fn single_front(s: Seq<u8>) -> Parsed<ContainerModel> {
    match count_front(s, "single palette value"@) {
        Parsed::Done { value, rest } => match count_front(rest, "single palette data length"@) {
            Parsed::Done { value: longs, rest } => if longs != 0 {
                Parsed::Failed {
                    text: "single-valued palette has "@ + decimal(longs as int) + " packed longs"@,
                    rest,
                }
            } else {
                Parsed::Done { value: ContainerModel::Single(value), rest }
            },
            Parsed::Failed { text, rest } => Parsed::Failed { text, rest },
        },
        Parsed::Failed { text, rest } => Parsed::Failed { text, rest },
    }
}

/// A palette and the indices into it, off the front of the bytes.
pub open spec fn indirect_front(s: Seq<u8>, entries: nat, bits: u8) -> Parsed<ContainerModel> {
    match count_front(s, "palette length"@) {
        Parsed::Done { value: count, rest } => if count == 0 || count > pow2(bits as nat) {
            Parsed::Failed {
                text: palette_length_text(count as int, pow2(bits as nat) as int, bits as int),
                rest,
            }
        } else {
            match palette_front(rest, Seq::empty(), count as nat) {
                Parsed::Done { value: palette, rest } => match data_front(rest, bits, entries) {
                    Parsed::Done { value: data, rest } => Parsed::Done {
                        value: ContainerModel::Indirect { bits, palette, data },
                        rest,
                    },
                    Parsed::Failed { text, rest } => Parsed::Failed { text, rest },
                },
                Parsed::Failed { text, rest } => Parsed::Failed { text, rest },
            }
        },
        Parsed::Failed { text, rest } => Parsed::Failed { text, rest },
    }
}

/// How a palette of a length that does not fit its bits is reported.
pub open spec fn palette_length_text(count: int, capacity: int, bits: int) -> Seq<char> {
    "palette length "@ + decimal(count) + " outside 1..="@ + decimal(capacity) + " for "@
        + decimal(bits) + " bits"@
}

/// What a reading function promises of its cursor and result.
pub open spec fn parses<T>(
    after: Seq<u8>,
    res: Result<T, MineRiderError>,
    want: Parsed<T>,
) -> bool {
    match (res, want) {
        (Ok(v), Parsed::Done { value, rest }) => v == value && after == rest,
        (Err(e), Parsed::Failed { text, rest }) => e.is_protocol(text) && after == rest,
        _ => false,
    }
}

fn nonnegative_varint(input: &mut PacketReader<'_>, what: &str) -> (res: Result<
    u32,
    MineRiderError,
>)
    ensures
        parses(final(input)@, res, count_front(old(input)@, what@)),
{
    match input.get_varint() {
        Ok(value) => {
            if value < 0 {
                let mut text: String = "negative ".to_owned();
                text.append(what);
                text.append(": ");
                append_int(&mut text, value as i128);
                Err(MineRiderError::Protocol(text))
            } else {
                Ok(value as u32)
            }
        },
        Err(e) => Err(e),
    }
}

/// Packed values of a chunk section, as they are kept.
#[derive(Debug)]
pub enum PalettedContainer {
    Single(u32),
    Indirect { bits: u8, palette: Vec<u32>, data: Vec<u64> },
    Direct { bits: u8, data: Vec<u64> },
}

impl View for PalettedContainer {
    type V = ContainerModel;

    open spec fn view(&self) -> ContainerModel {
        match self {
            PalettedContainer::Single(v) => ContainerModel::Single(*v),
            PalettedContainer::Indirect { bits, palette, data } => ContainerModel::Indirect {
                bits: *bits,
                palette: palette@,
                data: data@,
            },
            PalettedContainer::Direct { bits, data } => ContainerModel::Direct {
                bits: *bits,
                data: data@,
            },
        }
    }
}

/// Reads the count of longs and the longs.
fn decode_data(input: &mut PacketReader<'_>, bits: u8, entries: usize) -> (res: Result<
    Vec<u64>,
    MineRiderError,
>)
    requires
        1 <= bits <= 32,
    ensures
        match (res, data_front(old(input)@, bits, entries as nat)) {
            (Ok(data), Parsed::Done { value, rest }) => data@ == value && final(input)@ == rest,
            (Err(e), Parsed::Failed { text, rest }) => e.is_protocol(text) && final(input)@ == rest,
            _ => false,
        },
{
    let expected: usize = longs_for(entries, bits);
    let count: u32 = match nonnegative_varint(input, "palette data length") {
        Ok(v) => v,
        Err(e) => return Err(e),
    };
    if count as usize != expected {
        return Err(
            MineRiderError::Protocol(
                text_with_two(
                    "paletted container has ",
                    count as i128,
                    " longs, expected ",
                    expected as i128,
                    "",
                ),
            ),
        );
    }
    let ghost start = input@;
    let mut data: Vec<u64> = Vec::new();
    let mut i: usize = 0;
    while i < expected
        invariant
            i <= expected,
            longs_front(input@, data@, (expected - i) as nat) == longs_front(
                start,
                Seq::empty(),
                expected as nat,
            ),
            data_front(old(input)@, bits, entries as nat) == longs_front(
                start,
                Seq::empty(),
                expected as nat,
            ),
        decreases expected - i,
    {
        match input.get_u64() {
            Ok(v) => data.push(v),
            Err(e) => return Err(e),
        }
        i += 1;
    }
    Ok(data)
}

impl PalettedContainer {
    /// Reads a container of this many entries.
    pub fn decode(
        input: &mut PacketReader<'_>,
        entries: usize,
        min_indirect_bits: u8,
        max_indirect_bits: u8,
    ) -> (res: Result<Self, MineRiderError>)
        requires
            1 <= min_indirect_bits <= max_indirect_bits <= MAX_PALETTE_BITS,
        ensures
            match (
                res,
                container_front(
                    old(input)@,
                    entries as nat,
                    min_indirect_bits,
                    max_indirect_bits,
                ),
            ) {
                (Ok(c), Parsed::Done { value, rest }) => c@ == value && final(input)@ == rest
                    && c@.valid(),
                (Err(e), Parsed::Failed { text, rest }) => e.is_protocol(text) && final(input)@
                    == rest,
                _ => false,
            },
    {
        let wire_bits: u8 = match input.get_u8() {
            Ok(v) => v,
            Err(e) => return Err(e),
        };
        if wire_bits == 0 {
            let value: u32 = match nonnegative_varint(input, "single palette value") {
                Ok(v) => v,
                Err(e) => return Err(e),
            };
            let longs: u32 = match nonnegative_varint(input, "single palette data length") {
                Ok(v) => v,
                Err(e) => return Err(e),
            };
            if longs != 0 {
                return Err(
                    MineRiderError::Protocol(
                        text_with("single-valued palette has ", longs as i128, " packed longs"),
                    ),
                );
            }
            return Ok(PalettedContainer::Single(value));
        }
        if wire_bits > MAX_PALETTE_BITS {
            return Err(
                MineRiderError::Protocol(
                    text_with("paletted container uses unsupported ", wire_bits as i128, " bits"),
                ),
            );
        }
        if wire_bits > max_indirect_bits {
            return match decode_data(input, wire_bits, entries) {
                Ok(data) => Ok(PalettedContainer::Direct { bits: wire_bits, data }),
                Err(e) => Err(e),
            };
        }
        let bits: u8 = if wire_bits >= min_indirect_bits {
            wire_bits
        } else {
            min_indirect_bits
        };
        let count: u32 = match nonnegative_varint(input, "palette length") {
            Ok(v) => v,
            Err(e) => return Err(e),
        };
        let capacity: u64 = power_of_two(bits);
        if count == 0 || count as u64 > capacity {
            let mut text = text_with_two(
                "palette length ",
                count as i128,
                " outside 1..=",
                capacity as i128,
                " for ",
            );
            append_int(&mut text, bits as i128);
            text.append(" bits");
            return Err(MineRiderError::Protocol(text));
        }
        let ghost start = input@;
        let mut palette: Vec<u32> = Vec::new();
        let mut i: u32 = 0;
        while i < count
            invariant
                i <= count,
                palette_front(input@, palette@, (count - i) as nat) == palette_front(
                    start,
                    Seq::empty(),
                    count as nat,
                ),
                container_front(
                    old(input)@,
                    entries as nat,
                    min_indirect_bits,
                    max_indirect_bits,
                ) == (match palette_front(start, Seq::empty(), count as nat) {
                    Parsed::Done { value: palette, rest } => match data_front(
                        rest,
                        bits,
                        entries as nat,
                    ) {
                        Parsed::Done { value: data, rest } => Parsed::Done {
                            value: ContainerModel::Indirect { bits, palette, data },
                            rest,
                        },
                        Parsed::Failed { text, rest } => Parsed::Failed { text, rest },
                    },
                    Parsed::Failed { text, rest } => Parsed::Failed { text, rest },
                }),
            decreases count - i,
        {
            match nonnegative_varint(input, "palette value") {
                Ok(v) => palette.push(v),
                Err(e) => return Err(e),
            }
            i += 1;
        }
        match decode_data(input, bits, entries) {
            Ok(data) => Ok(PalettedContainer::Indirect { bits, palette, data }),
            Err(e) => Err(e),
        }
    }

    /// The value at an index; none where the data end before it, or where it
    /// points past the palette.
    pub fn get(&self, index: usize) -> (v: Option<u32>)
        requires
            self@.valid(),
        ensures
            v == self@.value(index as nat),
    {
        match self {
            PalettedContainer::Single(value) => Some(*value),
            PalettedContainer::Indirect { bits, palette, data } => match packed_value(
                *bits,
                data,
                index,
            ) {
                Some(i) => if (i as usize) < palette.len() {
                    Some(palette[i as usize])
                } else {
                    None
                },
                None => None,
            },
            PalettedContainer::Direct { bits, data } => packed_value(*bits, data, index),
        }
    }
}

/// What a section of sixteen layers holds.
#[verifier::ext_equal]
pub struct SectionModel {
    pub non_air_blocks: u16,
    pub block_states: ContainerModel,
    pub biomes: ContainerModel,
}

/// What a column of sections holds.
#[verifier::ext_equal]
pub struct ChunkModel {
    pub x: i32,
    pub z: i32,
    pub sections: Seq<SectionModel>,
}

impl SectionModel {
    /// Both containers are valid.
    pub open spec fn valid(self) -> bool {
        self.block_states.valid() && self.biomes.valid()
    }
}

impl ChunkModel {
    /// Every section is valid.
    pub open spec fn valid(self) -> bool {
        forall|i: int| 0 <= i < self.sections.len() ==> (#[trigger] self.sections[i]).valid()
    }
}

/// A section of sixteen layers.
#[derive(Debug)]
pub struct ChunkSection {
    pub non_air_blocks: u16,
    pub block_states: PalettedContainer,
    pub biomes: PalettedContainer,
}

/// A column of sections.
#[derive(Debug)]
pub struct Chunk {
    pub x: i32,
    pub z: i32,
    pub sections: Vec<ChunkSection>,
}

impl View for ChunkSection {
    type V = SectionModel;

    open spec fn view(&self) -> SectionModel {
        SectionModel {
            non_air_blocks: self.non_air_blocks,
            block_states: self.block_states@,
            biomes: self.biomes@,
        }
    }
}

/// The models of sections, in order.
pub open spec fn section_models(sections: Seq<ChunkSection>) -> Seq<SectionModel> {
    Seq::new(sections.len(), |i: int| sections[i]@)
}

impl View for Chunk {
    type V = ChunkModel;

    open spec fn view(&self) -> ChunkModel {
        ChunkModel { x: self.x, z: self.z, sections: section_models(self.sections@) }
    }
}

/// A block entity of a chunk packet.
pub struct ChunkBlockEntity {
    pub local_x: u8,
    pub local_z: u8,
    pub y: i16,
    pub kind: i32,
    pub nbt_data: Option<Nbt>,
}

/// A column of chunk sections as the server sends it.
pub struct PacketMapChunk {
    pub x: i32,
    pub z: i32,
    pub heightmaps: Nbt,
    pub chunk_data: Vec<u8>,
    pub block_entities: Vec<ChunkBlockEntity>,
    pub sky_light_mask: Vec<i64>,
    pub block_light_mask: Vec<i64>,
    pub empty_sky_light_mask: Vec<i64>,
    pub empty_block_light_mask: Vec<i64>,
    pub sky_light: Vec<Vec<u8>>,
    pub block_light: Vec<Vec<u8>>,
}

/// A column leaves view.
pub struct PacketUnloadChunk {
    pub chunk_z: i32,
    pub chunk_x: i32,
}

/// One block changes.
pub struct PacketBlockChange {
    pub location: BlockPosition,
    pub kind: i32,
}

/// A section's place, in sections.
pub struct SectionPosition {
    pub x: i32,
    pub y: i32,
    pub z: i32,
}

/// Several blocks of one section change.
pub struct PacketMultiBlockChange {
    pub chunk_coordinates: SectionPosition,
    pub records: Vec<i32>,
}

/// The signed sixteen-bit number at the front of the bytes.
pub open spec fn short_value(s: Seq<u8>) -> i16 {
    (be_value(s.take(2)) as u16) as i16
}

/// A section off the front of the bytes.
pub open spec fn section_front(s: Seq<u8>) -> Parsed<SectionModel> {
    if s.len() < 2 {
        Parsed::Failed { text: short_read_text(2, s.len() as int), rest: s }
    } else if short_value(s) < 0 || short_value(s) > BLOCKS_PER_SECTION {
        Parsed::Failed {
            text: "invalid non-air block count "@ + decimal(short_value(s) as int) + ""@,
            rest: s.skip(2),
        }
    } else {
        match container_front(s.skip(2), BLOCKS_PER_SECTION as nat, 4, 8) {
            Parsed::Done { value: block_states, rest } => match container_front(
                rest,
                BIOMES_PER_SECTION as nat,
                1,
                3,
            ) {
                Parsed::Done { value: biomes, rest } => Parsed::Done {
                    value: SectionModel {
                        non_air_blocks: short_value(s) as u16,
                        block_states,
                        biomes,
                    },
                    rest,
                },
                Parsed::Failed { text, rest } => Parsed::Failed { text, rest },
            },
            Parsed::Failed { text, rest } => Parsed::Failed { text, rest },
        }
    }
}

/// Sections off the front of the bytes, after those `got` already.
pub open spec fn sections_front(s: Seq<u8>, got: Seq<SectionModel>, more: nat) -> Parsed<
    Seq<SectionModel>,
>
    decreases more,
{
    if more == 0 {
        Parsed::Done { value: got, rest: s }
    } else {
        match section_front(s) {
            Parsed::Done { value, rest } => sections_front(
                rest,
                got.push(value),
                (more - 1) as nat,
            ),
            Parsed::Failed { text, rest } => Parsed::Failed { text, rest },
        }
    }
}

/// The column that a packet describes: as many sections as the dimension has,
/// and not a byte more.
pub open spec fn chunk_of(packet: PacketMapChunk, section_count: nat) -> Result<
    ChunkModel,
    Seq<char>,
> {
    match sections_front(packet.chunk_data@, Seq::empty(), section_count) {
        Parsed::Done { value, rest } => if rest.len() > 0 {
            Err(
                ""@ + decimal(rest.len() as int) + " trailing bytes after "@ + decimal(
                    section_count as int,
                ) + " chunk sections"@,
            )
        } else {
            Ok(ChunkModel { x: packet.x, z: packet.z, sections: value })
        },
        Parsed::Failed { text, .. } => Err(text),
    }
}

fn decode_section(input: &mut PacketReader<'_>) -> (res: Result<ChunkSection, MineRiderError>)
    ensures
        match (res, section_front(old(input)@)) {
            (Ok(c), Parsed::Done { value, rest }) => c@ == value && final(input)@ == rest
                && c@.valid(),
            (Err(e), Parsed::Failed { text, rest }) => e.is_protocol(text) && final(input)@ == rest,
            _ => false,
        },
{
    let non_air_blocks: i16 = match input.get_i16() {
        Ok(v) => v,
        Err(e) => return Err(e),
    };
    if non_air_blocks < 0 || non_air_blocks as usize > BLOCKS_PER_SECTION {
        return Err(
            MineRiderError::Protocol(
                text_with("invalid non-air block count ", non_air_blocks as i128, ""),
            ),
        );
    }
    let block_states = match PalettedContainer::decode(input, BLOCKS_PER_SECTION, 4, 8) {
        Ok(c) => c,
        Err(e) => return Err(e),
    };
    let biomes = match PalettedContainer::decode(input, BIOMES_PER_SECTION, 1, 3) {
        Ok(c) => c,
        Err(e) => return Err(e),
    };
    Ok(ChunkSection { non_air_blocks: non_air_blocks as u16, block_states, biomes })
}

impl Chunk {
    /// Decodes a column of this many sections.
    pub fn decode(packet: &PacketMapChunk, section_count: usize) -> (res: Result<
        Self,
        MineRiderError,
    >)
        ensures
            match (res, chunk_of(*packet, section_count as nat)) {
                (Ok(chunk), Ok(model)) => chunk@ == model && chunk@.valid(),
                (Err(e), Err(text)) => e.is_protocol(text),
                _ => false,
            },
    {
        let mut input = PacketReader::new(packet.chunk_data.as_slice());
        let mut sections: Vec<ChunkSection> = Vec::new();
        let mut i: usize = 0;
        proof {
            assert(section_models(sections@) =~= Seq::empty());
        }
        while i < section_count
            invariant
                i <= section_count,
                sections@.len() == i,
                sections_front(input@, section_models(sections@), (section_count - i) as nat)
                    == sections_front(packet.chunk_data@, Seq::empty(), section_count as nat),
                forall|k: int| 0 <= k < i ==> (#[trigger] sections@[k])@.valid(),
            decreases section_count - i,
        {
            let ghost before = sections@;
            match decode_section(&mut input) {
                Ok(section) => {
                    sections.push(section);
                    proof {
                        assert(section_models(sections@) =~= section_models(before).push(
                            section@,
                        ));
                    }
                },
                Err(e) => return Err(e),
            }
            i += 1;
        }
        if !input.is_empty() {
            return Err(
                MineRiderError::Protocol(
                    text_with_two(
                        "",
                        input.remaining() as i128,
                        " trailing bytes after ",
                        section_count as i128,
                        " chunk sections",
                    ),
                ),
            );
        }
        Ok(Chunk { x: packet.x, z: packet.z, sections })
    }
}

/// The values of the first `entries` indices.
pub open spec fn all_values(c: ContainerModel, entries: nat) -> Seq<u32> {
    Seq::new(entries, |i: int| c.value(i as nat)->0)
}

/// The first index from `from` on that has no value.
pub open spec fn first_gap(c: ContainerModel, from: nat, entries: nat) -> Option<nat>
    decreases entries - from,
{
    if from >= entries {
        None
    } else if c.value(from) is None {
        Some(from)
    } else {
        first_gap(c, from + 1, entries)
    }
}

/// Where there is no gap, every value is there.
proof fn lemma_no_gap(c: ContainerModel, from: nat, entries: nat)
    requires
        first_gap(c, from, entries) is None,
    ensures
        forall|i: nat| from <= i < entries ==> (#[trigger] c.value(i)) is Some,
    decreases entries - from,
{
    if from < entries {
        lemma_no_gap(c, from + 1, entries);
    }
}

/// The greatest of some values; of none, zero.
pub open spec fn greatest(values: Seq<u32>) -> u32
    decreases values.len(),
{
    if values.len() == 0 {
        0
    } else if greatest(values.drop_last()) > values.last() {
        greatest(values.drop_last())
    } else {
        values.last()
    }
}

/// The bits that the greatest value takes, and never less than one.
pub open spec fn width(values: Seq<u32>) -> u8 {
    if greatest(values) == 0 {
        1
    } else {
        bit_length(greatest(values) as nat) as u8
    }
}

/// Values kept in as few bits as the greatest takes.
pub open spec fn direct(values: Seq<u32>) -> ContainerModel {
    ContainerModel::Direct {
        bits: width(values),
        data: packed_longs(values, width(values) as nat),
    }
}

/// No value is above the greatest.
proof fn lemma_greatest(values: Seq<u32>)
    ensures
        forall|i: int| 0 <= i < values.len() ==> #[trigger] values[i] <= greatest(values),
    decreases values.len(),
{
    if values.len() > 0 {
        lemma_greatest(values.drop_last());
        assert forall|i: int| 0 <= i < values.len() implies #[trigger] values[i] <= greatest(
            values,
        ) by {
            if i < values.len() - 1 {
                assert(values.drop_last()[i] == values[i]);
            }
        }
    }
}

/// The width of values is between one and thirty-two bits, and they all fit it.
proof fn lemma_width(values: Seq<u32>)
    ensures
        1 <= width(values) <= 32,
        all_fit(values, width(values) as nat),
        greatest(values) > 0 ==> width(values) == bit_length(greatest(values) as nat),
{
    lemma_greatest(values);
    lemma2_to64();
    let g = greatest(values) as nat;
    lemma_bit_length(g);
    assert(g < pow2(32));
    assert(bit_length(g) <= 32);
}

/// What is kept directly is read back.
pub proof fn law_direct_values_read_back(values: Seq<u32>, i: int)
    requires
        0 <= i < values.len(),
    ensures
        direct(values).valid(),
        direct(values).value(i as nat) == Some(values[i]),
{
    lemma_width(values);
    law_packed_values_read_back(values, width(values) as nat, i);
}

/// What a container holds once one value is replaced: every value is written
/// out. That fails where the index is out of range or a value is missing.
pub open spec fn container_set(c: ContainerModel, entries: nat, index: nat, state: u32) -> Result<
    ContainerModel,
    Seq<char>,
> {
    if index >= entries {
        Err(
            "palette index "@ + decimal(index as int) + " outside "@ + decimal(entries as int)
                + ""@,
        )
    } else {
        match first_gap(c, 0, entries) {
            Some(i) => Err("invalid palette value at index "@ + decimal(i as int) + ""@),
            None => Ok(direct(all_values(c, entries).update(index as int, state))),
        }
    }
}

/// Replacing a value succeeds exactly where the index is within the entries and
/// every entry has a value. Then the value reads back, every other stays as it
/// was, and all are kept directly in the fewest bits that hold each of them.
pub proof fn law_values_are_kept_in_the_fewest_bits(
    c: ContainerModel,
    entries: nat,
    index: nat,
    state: u32,
)
    ensures
        container_set(c, entries, index, state) is Ok <==> index < entries && forall|i: nat|
            i < entries ==> (#[trigger] c.value(i)) is Some,
        container_set(c, entries, index, state) matches Ok(next) ==> {
            &&& next matches ContainerModel::Direct { bits, .. } && {
                &&& bits >= 1
                &&& forall|i: nat| i < entries ==> (#[trigger] next.value(i))->0 < pow2(bits as nat)
                &&& forall|fewer: nat|
                    1 <= fewer < bits ==> exists|i: nat|
                        i < entries && (#[trigger] next.value(i))->0 >= #[trigger] pow2(fewer)
            }
            &&& next.value(index) == Some(state)
            &&& forall|i: nat| i < entries && i != index ==> #[trigger] next.value(i) == c.value(i)
        },
{
    let all = forall|i: nat| i < entries ==> (#[trigger] c.value(i)) is Some;
    if first_gap(c, 0, entries) is None {
        lemma_no_gap(c, 0, entries);
    } else {
        lemma_gap(c, 0, entries);
    }
    if index < entries && all {
        let values = all_values(c, entries).update(index as int, state);
        let next = direct(values);
        lemma_width(values);
        assert forall|i: nat| i < entries implies #[trigger] next.value(i) == Some(
            values[i as int],
        ) by {
            law_direct_values_read_back(values, i as int);
        }
        assert forall|i: nat| i < entries implies (#[trigger] next.value(i))->0 < pow2(
            width(values) as nat,
        ) by {
            assert(values[i as int] < pow2(width(values) as nat));
        }
        assert forall|fewer: nat| 1 <= fewer < width(values) implies exists|i: nat|
            i < entries && (#[trigger] next.value(i))->0 >= #[trigger] pow2(fewer) by {
            let top = lemma_greatest_is_there(values);
            lemma_bit_length(greatest(values) as nat);
            if greatest(values) < pow2(fewer) {
                assert(bit_length(greatest(values) as nat) <= fewer);
                lemma2_to64();
            }
            assert(next.value(top as nat) == Some(values[top]));
        }
    }
}

/// The first gap is one.
proof fn lemma_gap(c: ContainerModel, from: nat, entries: nat)
    requires
        first_gap(c, from, entries) is Some,
    ensures
        from <= first_gap(c, from, entries)->0 < entries,
        c.value(first_gap(c, from, entries)->0) is None,
    decreases entries - from,
{
    if c.value(from) is Some {
        lemma_gap(c, from + 1, entries);
    }
}

/// The greatest of some values is one of them.
proof fn lemma_greatest_is_there(values: Seq<u32>) -> (i: int)
    requires
        values.len() > 0,
    ensures
        0 <= i < values.len(),
        values[i] == greatest(values),
    decreases values.len(),
{
    if values.len() == 1 {
        assert(greatest(values.drop_last()) == 0);
    }
    if values.len() > 1 && greatest(values.drop_last()) > values.last() {
        lemma_greatest_is_there(values.drop_last())
    } else {
        values.len() - 1
    }
}

/// Writes every value out and replaces one of them.
pub fn materialize_and_set(
    container: &mut PalettedContainer,
    entries: usize,
    index: usize,
    state: u32,
) -> (res: Result<(), MineRiderError>)
    requires
        old(container)@.valid(),
    ensures
        match (res, container_set(old(container)@, entries as nat, index as nat, state)) {
            (Ok(_), Ok(c)) => final(container)@ == c,
            (Err(e), Err(text)) => final(container)@ == old(container)@ && e.is_protocol(text),
            _ => false,
        },
        final(container)@.valid(),
{
    if index >= entries {
        return Err(
            MineRiderError::Protocol(
                text_with_two("palette index ", index as i128, " outside ", entries as i128, ""),
            ),
        );
    }
    let mut values: Vec<u32> = Vec::new();
    let mut top: u32 = 0;
    let mut i: usize = 0;
    let ghost model = container@;
    while i < entries
        invariant
            i <= entries,
            index < entries,
            container@ == model,
            model == old(container)@,
            model.valid(),
            values@.len() == i,
            first_gap(model, i as nat, entries as nat) == first_gap(model, 0, entries as nat),
            forall|j: int|
                0 <= j < i ==> #[trigger] values@[j] == (if j == index {
                    state
                } else {
                    model.value(j as nat)->0
                }),
            top == greatest(values@),
        decreases entries - i,
    {
        match container.get(i) {
            Some(v) => {
                let value: u32 = if i == index {
                    state
                } else {
                    v
                };
                let ghost before = values@;
                values.push(value);
                proof {
                    assert(values@.drop_last() =~= before);
                }
                if value >= top {
                    top = value;
                }
            },
            None => {
                return Err(
                    MineRiderError::Protocol(
                        text_with("invalid palette value at index ", i as i128, ""),
                    ),
                );
            },
        }
        i += 1;
    }
    proof {
        assert(values@ =~= all_values(model, entries as nat).update(index as int, state));
        lemma_width(values@);
    }
    let bits: u8 = if top == 0 {
        1
    } else {
        bits_of(top)
    };
    let data = pack_all(&values, bits);
    *container = PalettedContainer::Direct { bits, data };
    Ok(())
}

/// What the client knows of the blocks around it.
#[verifier::ext_equal]
pub struct WorldModel {
    pub dimension: DimensionType,
    pub chunks: Map<(int, int), ChunkModel>,
}

/// The column that a block belongs to.
pub open spec fn column_of(x: int, z: int) -> (int, int) {
    (x / 16, z / 16)
}

/// A block's place in its section: layers first, then rows.
pub open spec fn place_in_section(x: int, y: int, z: int) -> nat {
    (((y % 16) * 16 + z % 16) * 16 + x % 16) as nat
}

impl WorldModel {
    /// Every column is valid.
    pub open spec fn valid(self) -> bool {
        forall|k: (int, int)| self.chunks.contains_key(k) ==> (#[trigger] self.chunks[k]).valid()
    }

    /// The number of the section that holds a layer, from the lowest.
    pub open spec fn section_of(self, y: int) -> int {
        (y - self.dimension.min_y) / 16
    }

    /// The state of a block; none outside the dimension or what is loaded.
    pub open spec fn block(self, x: int, y: int, z: int) -> Option<u32> {
        let at = column_of(x, z);
        let section = self.section_of(y);
        if y < self.dimension.min_y || y >= self.dimension.min_y + self.dimension.height {
            None
        } else if !self.chunks.contains_key(at) || section >= self.chunks[at].sections.len() {
            None
        } else {
            self.chunks[at].sections[section].block_states.value(place_in_section(x, y, z))
        }
    }

    /// The same with one container of block states replaced.
    pub open spec fn with_container(
        self,
        at: (int, int),
        section: int,
        block_states: ContainerModel,
    ) -> WorldModel {
        let chunk = self.chunks[at];
        let changed = SectionModel { block_states, ..chunk.sections[section] };
        WorldModel {
            chunks: self.chunks.insert(
                at,
                ChunkModel { sections: chunk.sections.update(section, changed), ..chunk },
            ),
            ..self
        }
    }

    /// The world once a block is set, or why it cannot be.
    pub open spec fn set_block(self, x: int, y: int, z: int, state: u32) -> Result<
        WorldModel,
        Seq<char>,
    > {
        let at = column_of(x, z);
        let section = self.section_of(y);
        if !self.chunks.contains_key(at) {
            Err(
                "block update for unloaded chunk at "@ + decimal(x) + ","@ + decimal(z) + ""@,
            )
        } else if section < 0 || section >= self.chunks[at].sections.len() {
            Err("block update y "@ + decimal(y) + " outside dimension"@)
        } else {
            match container_set(
                self.chunks[at].sections[section].block_states,
                BLOCKS_PER_SECTION as nat,
                place_in_section(x, y, z),
                state,
            ) {
                Ok(c) => Ok(self.with_container(at, section, c)),
                Err(text) => Err(text),
            }
        }
    }

    /// The world once the records from `i` on are applied, and why the one at
    /// which it stopped cannot be. A record holds a state above four bits of
    /// each offset: x, z, y from the high end.
    pub open spec fn set_blocks(
        self,
        at: SectionPosition,
        records: Seq<i32>,
        i: int,
    ) -> (WorldModel, Option<Seq<char>>)
        decreases records.len() - i,
    {
        if i < 0 || i >= records.len() {
            (self, None)
        } else if records[i] < 0 {
            (
                self,
                Some("negative multi-block record "@ + decimal(records[i] as int) + ""@),
            )
        } else {
            let r = records[i] as int;
            match self.set_block(
                at.x * 16 + r / 256 % 16,
                at.y * 16 + r % 16,
                at.z * 16 + r / 16 % 16,
                (r / 4096) as u32,
            ) {
                Ok(next) => next.set_blocks(at, records, i + 1),
                Err(text) => (self, Some(text)),
            }
        }
    }
}

/// The blocks that the client knows, by column.
pub struct World {
    pub dimension: DimensionType,
    chunks: SortedMap<(i32, i32), Chunk>,
}

/// The models of the columns.
pub open spec fn chunk_models(chunks: Map<(int, int), Chunk>) -> Map<(int, int), ChunkModel> {
    Map::new(|k: (int, int)| chunks.contains_key(k), |k: (int, int)| chunks[k]@)
}

impl View for World {
    type V = WorldModel;

    closed spec fn view(&self) -> WorldModel {
        WorldModel { dimension: self.dimension, chunks: chunk_models(self.chunks@) }
    }
}

impl World {
    /// A world with nothing loaded.
    pub fn new(dimension: DimensionType) -> (w: Self)
        ensures
            w@ == (WorldModel { dimension, chunks: Map::empty() }),
            w@.valid(),
    {
        let w = World { dimension, chunks: SortedMap::new() };
        assert(w@.chunks =~= Map::empty());
        w
    }

    /// Loads a column, in place of what was loaded there.
    pub fn insert_chunk(&mut self, packet: &PacketMapChunk) -> (res: Result<(), MineRiderError>)
        requires
            old(self)@.valid(),
            old(self)@.dimension.height >= 0,
        ensures
            match (res, chunk_of(*packet, (old(self)@.dimension.height / 16) as nat)) {
                (Ok(_), Ok(chunk)) => final(self)@ == (WorldModel {
                    chunks: old(self)@.chunks.insert((packet.x as int, packet.z as int), chunk),
                    ..old(self)@
                }),
                (Err(e), Err(text)) => final(self)@ == old(self)@ && e.is_protocol(text),
                _ => false,
            },
            final(self)@.valid(),
    {
        match Chunk::decode(packet, self.dimension.section_count()) {
            Ok(chunk) => {
                let ghost model = chunk@;
                self.chunks.insert((chunk.x, chunk.z), chunk);
                assert(self@.chunks =~= old(self)@.chunks.insert((packet.x as int, packet.z as int), model));
                Ok(())
            },
            Err(e) => Err(e),
        }
    }

    /// Drops a column.
    pub fn unload_chunk(&mut self, packet: &PacketUnloadChunk)
        ensures
            final(self)@ == (WorldModel {
                chunks: old(self)@.chunks.remove((packet.chunk_x as int, packet.chunk_z as int)),
                ..old(self)@
            }),
            old(self)@.valid() ==> final(self)@.valid(),
    {
        self.chunks.remove(&(packet.chunk_x, packet.chunk_z));
        assert(self@.chunks =~= old(self)@.chunks.remove((packet.chunk_x as int, packet.chunk_z as int)));
    }

    /// Whether a column is loaded.
    pub fn has_chunk(&self, x: i32, z: i32) -> (b: bool)
        ensures
            b == self@.chunks.contains_key((x as int, z as int)),
    {
        self.chunks.contains(&(x, z))
    }

    /// The state of a block; none outside the dimension or what is loaded.
    pub fn block_state(&self, x: i32, y: i32, z: i32) -> (state: Option<u32>)
        requires
            self@.valid(),
        ensures
            state == self@.block(x as int, y as int, z as int),
    {
        let min_y: i64 = self.dimension.min_y as i64;
        let above: i64 = y as i64 - min_y;
        if above < 0 || above >= self.dimension.height as i64 {
            return None;
        }
        match self.chunks.get(&(floor_div_16(x), floor_div_16(z))) {
            None => None,
            Some(chunk) => {
                let section_index: usize = above as usize / 16;
                if section_index >= chunk.sections.len() {
                    return None;
                }
                proof {
                    let at = column_of(x as int, z as int);
                    assert(self@.chunks.contains_key(at));
                    assert(self@.chunks[at].valid());
                    assert(self@.chunks[at].sections[section_index as int].valid());
                }
                chunk.sections[section_index].block_states.get(
                    (floor_mod_16(y) * 16 + floor_mod_16(z)) * 16 + floor_mod_16(x),
                )
            },
        }
    }

    /// Sets a block.
    pub fn set_block_state(&mut self, x: i32, y: i32, z: i32, state: u32) -> (res: Result<
        (),
        MineRiderError,
    >)
        requires
            old(self)@.valid(),
        ensures
            match (res, old(self)@.set_block(x as int, y as int, z as int, state)) {
                (Ok(_), Ok(next)) => final(self)@ == next,
                (Err(e), Err(text)) => final(self)@ == old(self)@ && e.is_protocol(text),
                _ => false,
            },
            final(self)@.valid(),
    {
        let at: (i32, i32) = (floor_div_16(x), floor_div_16(z));
        let ghost model = self@;
        let ghost key = column_of(x as int, z as int);
        let empty = Chunk { x: 0, z: 0, sections: Vec::new() };
        let mut chunk = match self.chunks.insert_over(&at, empty) {
            Some(chunk) => chunk,
            None => return Err(
                MineRiderError::Protocol(
                    text_with_two(
                        "block update for unloaded chunk at ",
                        x as i128,
                        ",",
                        z as i128,
                        "",
                    ),
                ),
            ),
        };
        proof {
            assert(model.chunks.contains_key(key));
            assert(model.chunks[key] == chunk@);
            assert(chunk@.valid());
        }
        let ghost before = chunk@;
        let above: i64 = y as i64 - self.dimension.min_y as i64;
        let outside = above < 0 || (above as u64) / 16 >= chunk.sections.len() as u64;
        if outside {
            self.chunks.insert(at, chunk);
            proof {
                assert(self@.chunks =~= model.chunks);
                let s = model.section_of(y as int);
                assert(s < 0 || s >= model.chunks[key].sections.len());
            }
            return Err(
                MineRiderError::Protocol(text_with("block update y ", y as i128, " outside dimension")),
            );
        }
        let section_index: usize = (above as u64 / 16) as usize;
        let index: usize = (floor_mod_16(y) * 16 + floor_mod_16(z)) * 16 + floor_mod_16(x);
        assert(before.sections[section_index as int].valid());
        let ghost sections = chunk.sections@;
        let res = materialize_and_set(
            &mut chunk.sections[section_index].block_states,
            BLOCKS_PER_SECTION,
            index,
            state,
        );
        let ghost changed = chunk.sections@[section_index as int]@.block_states;
        proof {
            let s = section_index as int;
            assert(s == model.section_of(y as int));
            assert(chunk@.sections =~= before.sections.update(
                s,
                SectionModel { block_states: changed, ..before.sections[s] },
            ));
        }
        let ghost after = chunk@;
        self.chunks.insert(at, chunk);
        proof {
            let s = section_index as int;
            assert(self@.chunks =~= model.chunks.insert(key, after));
            assert(self@ == model.with_container(key, s, changed));
            if changed == before.sections[s].block_states {
                assert(before.sections.update(s, before.sections[s]) =~= before.sections);
                assert(self@.chunks =~= model.chunks);
            }
            assert forall|k: (int, int)| self@.chunks.contains_key(k) implies (
            #[trigger] self@.chunks[k]).valid() by {
                if k == key {
                    assert(after.valid());
                } else {
                    assert(model.chunks[k].valid());
                }
            }
        }
        res
    }

    /// Applies a change of one block.
    pub fn apply_block_change(&mut self, packet: &PacketBlockChange) -> (res: Result<
        (),
        MineRiderError,
    >)
        requires
            old(self)@.valid(),
        ensures
            match (
                res,
                old(self)@.set_block(
                    packet.location.x as int,
                    packet.location.y as int,
                    packet.location.z as int,
                    packet.kind as u32,
                ),
            ) {
                (Ok(_), Ok(next)) => final(self)@ == next,
                (Err(e), Err(text)) => final(self)@ == old(self)@ && e.is_protocol(text),
                _ => false,
            },
            final(self)@.valid(),
    {
        self.set_block_state(
            packet.location.x,
            packet.location.y as i32,
            packet.location.z,
            packet.kind as u32,
        )
    }

    /// Applies changes of several blocks of a section, up to the first that
    /// fails.
    pub fn apply_multi_block_change(&mut self, packet: &PacketMultiBlockChange) -> (res: Result<
        (),
        MineRiderError,
    >)
        requires
            old(self)@.valid(),
            in_reach(packet.chunk_coordinates),
        ensures
            ({
                let (next, wrong) = old(self)@.set_blocks(
                    packet.chunk_coordinates,
                    packet.records@,
                    0,
                );
                &&& final(self)@ == next
                &&& match (res, wrong) {
                    (Ok(_), None) => true,
                    (Err(e), Some(text)) => e.is_protocol(text),
                    _ => false,
                }
            }),
            final(self)@.valid(),
    {
        let at: &SectionPosition = &packet.chunk_coordinates;
        let mut i: usize = 0;
        while i < packet.records.len()
            invariant
                i <= packet.records@.len(),
                *at == packet.chunk_coordinates,
                in_reach(*at),
                self@.valid(),
                self@.set_blocks(*at, packet.records@, i as int) == old(self)@.set_blocks(
                    *at,
                    packet.records@,
                    0,
                ),
            decreases packet.records@.len() - i,
        {
            let record: i32 = packet.records[i];
            if record < 0 {
                return Err(
                    MineRiderError::Protocol(
                        text_with("negative multi-block record ", record as i128, ""),
                    ),
                );
            }
            let x: i32 = at.x * 16 + record / 256 % 16;
            let z: i32 = at.z * 16 + record / 16 % 16;
            let y: i32 = at.y * 16 + record % 16;
            match self.set_block_state(x, y, z, (record / 4096) as u32) {
                Ok(_) => {},
                Err(e) => return Err(e),
            }
            i += 1;
        }
        Ok(())
    }
}

/// A section whose blocks have coordinates that fit.
pub open spec fn in_reach(at: SectionPosition) -> bool {
    &&& i32::MIN <= at.x * 16 && at.x * 16 + 15 <= i32::MAX
    &&& i32::MIN <= at.y * 16 && at.y * 16 + 15 <= i32::MAX
    &&& i32::MIN <= at.z * 16 && at.z * 16 + 15 <= i32::MAX
}

/// Places in a section tell its blocks apart.
proof fn lemma_places(x: int, y: int, z: int)
    ensures
        place_in_section(x, y, z) < BLOCKS_PER_SECTION,
        place_in_section(x, y, z) == ((y % 16) * 16 + z % 16) * 16 + x % 16,
        0 <= x % 16 < 16,
        0 <= y % 16 < 16,
        0 <= z % 16 < 16,
{
}

/// A block that was set is read back, within the height of the dimension.
pub proof fn law_set_block_reads_back(m: WorldModel, x: int, y: int, z: int, state: u32)
    requires
        m.valid(),
        m.set_block(x, y, z, state) is Ok,
        m.dimension.min_y <= y < m.dimension.min_y + m.dimension.height,
    ensures
        m.set_block(x, y, z, state)->Ok_0.block(x, y, z) == Some(state),
{
    let c = m.chunks[column_of(x, z)].sections[m.section_of(y)].block_states;
    let values = all_values(c, BLOCKS_PER_SECTION as nat);
    let place = place_in_section(x, y, z);
    lemma_places(x, y, z);
    law_direct_values_read_back(values.update(place as int, state), place as int);
}

/// Setting a block leaves every other as it was.
pub proof fn law_set_block_leaves_the_rest(
    m: WorldModel,
    x: int,
    y: int,
    z: int,
    state: u32,
    x2: int,
    y2: int,
    z2: int,
)
    requires
        m.valid(),
        m.set_block(x, y, z, state) is Ok,
        x != x2 || y != y2 || z != z2,
    ensures
        m.set_block(x, y, z, state)->Ok_0.block(x2, y2, z2) == m.block(x2, y2, z2),
{
    let at = column_of(x, z);
    let section = m.section_of(y);
    if column_of(x2, z2) == at && m.section_of(y2) == section && y2 >= m.dimension.min_y {
        let c = m.chunks[at].sections[section].block_states;
        let values = all_values(c, BLOCKS_PER_SECTION as nat);
        let place = place_in_section(x, y, z);
        let other = place_in_section(x2, y2, z2);
        lemma_places(x, y, z);
        lemma_places(x2, y2, z2);
        assert(x / 16 == x2 / 16 && z / 16 == z2 / 16);
        assert(place != other) by {
            if place == other {
                assert(x % 16 == x2 % 16 && z % 16 == z2 % 16 && y % 16 == y2 % 16);
                assert(x == x2 && z == z2);
                assert(y == y2);
            }
        }
        lemma_no_gap(c, 0, BLOCKS_PER_SECTION as nat);
        law_direct_values_read_back(values.update(place as int, state), other as int);
        assert(values.update(place as int, state)[other as int] == c.value(other)->0);
        assert(c.value(other) is Some);
    }
}

/// Setting a block keeps a world valid.
pub proof fn law_set_block_keeps_validity(m: WorldModel, x: int, y: int, z: int, state: u32)
    requires
        m.valid(),
        m.set_block(x, y, z, state) is Ok,
    ensures
        m.set_block(x, y, z, state)->Ok_0.valid(),
{
    let at = column_of(x, z);
    let section = m.section_of(y);
    let next = m.set_block(x, y, z, state)->Ok_0;
    let c = m.chunks[at].sections[section].block_states;
    let values = all_values(c, BLOCKS_PER_SECTION as nat);
    let place = place_in_section(x, y, z);
    lemma_places(x, y, z);
    law_direct_values_read_back(values.update(place as int, state), place as int);
    assert forall|k: (int, int)| next.chunks.contains_key(k) implies (
    #[trigger] next.chunks[k]).valid() by {
        assert(m.chunks[k].valid());
        if k == at {
            let chunk = next.chunks[k];
            assert forall|i: int| 0 <= i < chunk.sections.len() implies (
            #[trigger] chunk.sections[i]).valid() by {
                assert(m.chunks[k].sections[i].valid());
            }
        }
    }
}

/// A block that a box crosses, its state and the boxes that it fills.
#[derive(Debug, Clone, Copy, PartialEq, Eq, Structural)]
pub struct CrossedBlock {
    pub x: i32,
    pub y: i32,
    pub z: i32,
    pub state: u32,
    pub boxes: BoxRange,
}

/// Why a collision query has no answer.
#[derive(Debug, Clone, Copy, PartialEq, Eq, Structural)]
pub enum CollisionFault {
    /// The world around this block is not there.
    Unloaded { x: i32, y: i32, z: i32 },
    /// No shape is known for this state.
    UnknownState { state: u32 },
}

impl CollisionFault {
    /// How the fault is reported.
    pub open spec fn text(self) -> Seq<char> {
        match self {
            CollisionFault::Unloaded { x, y, z } => "collision query crosses unloaded block "@
                + decimal(x as int) + ","@ + decimal(y as int) + ","@ + decimal(z as int),
            CollisionFault::UnknownState { state } => "unknown block state id "@ + decimal(
                state as int,
            ),
        }
    }

    /// The fault as an error.
    pub fn error(self) -> (e: MineRiderError)
        ensures
            e.is_protocol(self.text()),
    {
        match self {
            CollisionFault::Unloaded { x, y, z } => {
                let mut text = text_with_two(
                    "collision query crosses unloaded block ",
                    x as i128,
                    ",",
                    y as i128,
                    ",",
                );
                append_int(&mut text, z as i128);
                MineRiderError::Protocol(text)
            },
            CollisionFault::UnknownState { state } => {
                let mut text: String = "unknown block state id ".to_owned();
                append_int(&mut text, state as i128);
                MineRiderError::Protocol(text)
            },
        }
    }
}

impl WorldModel {
    /// The state of the box's `i`th block.
    pub open spec fn crossed(self, area: BlockBox, i: int) -> Option<u32> {
        let (x, y, z) = area.cell(i);
        self.block(x, y, z)
    }

    /// What a query finds wrong with the box's `i`th block.
    pub open spec fn fault(self, tables: BlockTables, area: BlockBox, i: int) -> Option<
        CollisionFault,
    > {
        let (x, y, z) = area.cell(i);
        match self.crossed(area, i) {
            None => Some(CollisionFault::Unloaded { x: x as i32, y: y as i32, z: z as i32 }),
            Some(state) => match tables.boxes_of(state) {
                None => Some(CollisionFault::UnknownState { state }),
                Some(_) => None,
            },
        }
    }

    /// The first `n` blocks of a box, with nothing wrong about them.
    pub open spec fn crossed_blocks(self, tables: BlockTables, area: BlockBox, n: nat) -> Seq<
        CrossedBlock,
    > {
        Seq::new(
            n,
            |i: int|
                CrossedBlock {
                    x: area.cell(i).0 as i32,
                    y: area.cell(i).1 as i32,
                    z: area.cell(i).2 as i32,
                    state: self.crossed(area, i)->0,
                    boxes: tables.boxes_of(self.crossed(area, i)->0)->0,
                },
        )
    }
}

fn span_of(low: i32, high: i32) -> (n: u128)
    ensures
        n == span(low, high),
        n < 0x1_0000_0000,
{
    if low < high {
        (high as i64 - low as i64) as u128
    } else {
        0
    }
}

impl World {
    /// Lists the blocks that a box crosses, in order, up to the first that has
    /// something wrong about it.
    pub fn collision_boxes(
        &self,
        tables: &BlockTables,
        area: &Aabb,
        out: &mut Vec<CrossedBlock>,
    ) -> (res: Result<(), CollisionFault>)
        requires
            self@.valid(),
        ensures
            exists|n: nat|
                {
                    &&& n <= area.blocks().volume()
                    &&& final(out)@ == old(out)@ + #[trigger] self@.crossed_blocks(
                        *tables,
                        area.blocks(),
                        n,
                    )
                    &&& forall|i: int|
                        0 <= i < n ==> (#[trigger] self@.fault(*tables, area.blocks(), i)) is None
                    &&& match res {
                        Ok(_) => n == area.blocks().volume(),
                        Err(fault) => n < area.blocks().volume() && self@.fault(
                            *tables,
                            area.blocks(),
                            n as int,
                        ) == Some(fault),
                    }
                },
    {
        self.list_crossed(tables, area.block_box(), out)
    }

    fn list_crossed(
        &self,
        tables: &BlockTables,
        area: BlockBox,
        out: &mut Vec<CrossedBlock>,
    ) -> (res: Result<(), CollisionFault>)
        requires
            self@.valid(),
        ensures
            exists|n: nat|
                {
                    &&& n <= area.volume()
                    &&& final(out)@ == old(out)@ + #[trigger] self@.crossed_blocks(*tables, area, n)
                    &&& forall|i: int|
                        0 <= i < n ==> (#[trigger] self@.fault(*tables, area, i)) is None
                    &&& match res {
                        Ok(_) => n == area.volume(),
                        Err(fault) => n < area.volume() && self@.fault(*tables, area, n as int)
                            == Some(fault),
                    }
                },
    {
        let width: u128 = span_of(area.min_x, area.max_x);
        let depth: u128 = span_of(area.min_z, area.max_z);
        let height: u128 = span_of(area.min_y, area.max_y);
        proof {
            assert(depth * width < 0x1_0000_0000_0000_0000) by (nonlinear_arith)
                requires
                    0 <= depth < 0x1_0000_0000,
                    0 <= width < 0x1_0000_0000,
            ;
        }
        let layer: u128 = depth * width;
        proof {
            assert(height * layer < 0x1_0000_0000_0000_0000_0000_0000) by (nonlinear_arith)
                requires
                    0 <= height < 0x1_0000_0000,
                    0 <= layer < 0x1_0000_0000_0000_0000,
            ;
            assert(self@.crossed_blocks(*tables, area, 0) =~= Seq::empty());
            assert(out@ =~= old(out)@ + self@.crossed_blocks(*tables, area, 0));
        }
        let volume: u128 = height * layer;
        let mut i: u128 = 0;
        while i < volume
            invariant
                self@.valid(),
                width == span(area.min_x, area.max_x),
                depth == span(area.min_z, area.max_z),
                height == span(area.min_y, area.max_y),
                layer == depth * width,
                volume == height * layer,
                i <= volume,
                volume == area.volume(),
                out@ == old(out)@ + self@.crossed_blocks(*tables, area, i as nat),
                forall|k: int| 0 <= k < i ==> (#[trigger] self@.fault(*tables, area, k)) is None,
            decreases volume - i,
        {
            proof {
                assert(width > 0 && layer > 0) by (nonlinear_arith)
                    requires
                        volume > 0,
                        volume == height * layer,
                        layer == depth * width,
                        width >= 0,
                        depth >= 0,
                        height >= 0,
                ;
                assert(i / layer < height) by (nonlinear_arith)
                    requires
                        i < height * layer,
                        layer > 0,
                        i >= 0,
                ;
                assert((i % layer) / width < depth) by (nonlinear_arith)
                    requires
                        0 <= i % layer < layer,
                        layer == depth * width,
                        width > 0,
                ;
            }
            let x: i32 = (area.min_x as i128 + (i % width) as i128) as i32;
            let y: i32 = (area.min_y as i128 + (i / layer) as i128) as i32;
            let z: i32 = (area.min_z as i128 + (i % layer / width) as i128) as i32;
            proof {
                assert(area.cell(i as int) == (x as int, y as int, z as int));
            }
            match self.block_state(x, y, z) {
                Some(state) => match tables.collision_boxes(state) {
                    Some(boxes) => {
                        out.push(CrossedBlock { x, y, z, state, boxes });
                        assert(out@ =~= old(out)@ + self@.crossed_blocks(
                            *tables,
                            area,
                            (i + 1) as nat,
                        ));
                    },
                    None => {
                        let fault = CollisionFault::UnknownState { state };
                        assert(self@.fault(*tables, area, i as int) == Some(fault));
                        return Err(fault);
                    },
                },
                None => {
                    let fault = CollisionFault::Unloaded { x, y, z };
                    assert(self@.fault(*tables, area, i as int) == Some(fault));
                    return Err(fault);
                },
            }
            i += 1;
        }
        Ok(())
    }
}

} // verus!
