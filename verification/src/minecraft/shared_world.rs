//! Bounded interning for immutable decoded chunk snapshots.
//!
//! The store is only an ownership optimization. Every client keeps its own
//! position index and must receive a chunk before it can hold a payload.
//! Fingerprints select a collision bucket; full likeness is always required
//! before an existing payload is reused.
use crate::error::{protocol_error, MineRiderError};
use crate::minecraft::configuration::DimensionType;
use crate::minecraft::fingerprint::{
    arrays_bytes, container_bytes, fnv, hash_byte_arrays, hash_container, hash_i64s,
    law_hash_continues, le_bytes, signed_longs_bytes, write_len, Fnv64, FNV_OFFSET,
};
use crate::minecraft::nbt::Nbt;
use crate::minecraft::nbt_wire::{
    alike, encode_tag, same_numbers, same_tag, tag_bytes,
};
use crate::minecraft::world::{
    chunk_of, section_models, Chunk, ChunkBlockEntity, ChunkSection, PacketMapChunk,
    PalettedContainer, SectionModel,
};
use crate::text_build::same_text;
use std::sync::{Arc, Weak};
use vstd::prelude::*;

verus! {

/// How many shards a store has unless told otherwise.
pub const DEFAULT_SHARD_COUNT: usize = 16;

/// How many keys a shard keeps unless told otherwise.
pub const DEFAULT_KEYS_PER_SHARD: usize = 4_096;

/// How many payloads share a key unless told otherwise.
pub const DEFAULT_COLLISIONS_PER_KEY: usize = 8;

/// A block entity of a snapshot.
#[derive(Debug)]
pub struct BlockEntitySnapshot {
    pub local_x: u8,
    pub local_z: u8,
    pub y: i16,
    pub kind: i32,
    pub nbt: Option<Nbt>,
}

/// The light of a chunk.
#[derive(Debug)]
pub struct ChunkLight {
    pub sky_mask: Vec<i64>,
    pub block_mask: Vec<i64>,
    pub empty_sky_mask: Vec<i64>,
    pub empty_block_mask: Vec<i64>,
    pub sky_arrays: Vec<Vec<u8>>,
    pub block_arrays: Vec<Vec<u8>>,
}

/// What the light of a chunk is.
#[verifier::ext_equal]
pub struct LightModel {
    pub sky_mask: Seq<i64>,
    pub block_mask: Seq<i64>,
    pub empty_sky_mask: Seq<i64>,
    pub empty_block_mask: Seq<i64>,
    pub sky_arrays: Seq<Seq<u8>>,
    pub block_arrays: Seq<Seq<u8>>,
}

/// What byte arrays hold.
pub open spec fn arrays_view(arrays: Seq<Vec<u8>>) -> Seq<Seq<u8>> {
    Seq::new(arrays.len(), |i: int| arrays[i]@)
}

impl View for ChunkLight {
    type V = LightModel;

    open spec fn view(&self) -> LightModel {
        LightModel {
            sky_mask: self.sky_mask@,
            block_mask: self.block_mask@,
            empty_sky_mask: self.empty_sky_mask@,
            empty_block_mask: self.empty_block_mask@,
            sky_arrays: arrays_view(self.sky_arrays@),
            block_arrays: arrays_view(self.block_arrays@),
        }
    }
}

/// The light that a chunk packet carries.
pub open spec fn light_of(packet: PacketMapChunk) -> LightModel {
    LightModel {
        sky_mask: packet.sky_light_mask@,
        block_mask: packet.block_light_mask@,
        empty_sky_mask: packet.empty_sky_light_mask@,
        empty_block_mask: packet.empty_block_light_mask@,
        sky_arrays: arrays_view(packet.sky_light@),
        block_arrays: arrays_view(packet.block_light@),
    }
}

fn copy_longs(items: &Vec<i64>) -> (out: Vec<i64>)
    ensures
        out@ == items@,
{
    let mut out: Vec<i64> = Vec::new();
    out.extend_from_slice(items.as_slice());
    assert(out@ =~= items@);
    out
}

fn copy_bytes(items: &Vec<u8>) -> (out: Vec<u8>)
    ensures
        out@ == items@,
{
    let mut out: Vec<u8> = Vec::new();
    out.extend_from_slice(items.as_slice());
    assert(out@ =~= items@);
    out
}

fn copy_arrays(arrays: &Vec<Vec<u8>>) -> (out: Vec<Vec<u8>>)
    ensures
        arrays_view(out@) == arrays_view(arrays@),
{
    let mut out: Vec<Vec<u8>> = Vec::new();
    let mut i: usize = 0;
    while i < arrays.len()
        invariant
            i <= arrays@.len(),
            out@.len() == i,
            forall|k: int| 0 <= k < i ==> (#[trigger] out@[k])@ == arrays@[k]@,
        decreases arrays@.len() - i,
    {
        out.push(copy_bytes(&arrays[i]));
        i += 1;
    }
    assert(arrays_view(out@) =~= arrays_view(arrays@));
    out
}

impl ChunkLight {
    /// The light that a chunk packet carries.
    pub fn from_map_chunk(packet: &PacketMapChunk) -> (light: Self)
        ensures
            light@ == light_of(*packet),
    {
        ChunkLight {
            sky_mask: copy_longs(&packet.sky_light_mask),
            block_mask: copy_longs(&packet.block_light_mask),
            empty_sky_mask: copy_longs(&packet.empty_sky_light_mask),
            empty_block_mask: copy_longs(&packet.empty_block_light_mask),
            sky_arrays: copy_arrays(&packet.sky_light),
            block_arrays: copy_arrays(&packet.block_light),
        }
    }
}

impl Default for ChunkLight {
    fn default() -> (light: Self)
        ensures
            light@ == (LightModel {
                sky_mask: Seq::empty(),
                block_mask: Seq::empty(),
                empty_sky_mask: Seq::empty(),
                empty_block_mask: Seq::empty(),
                sky_arrays: Seq::empty(),
                block_arrays: Seq::empty(),
            }),
    {
        let light = ChunkLight {
            sky_mask: Vec::new(),
            block_mask: Vec::new(),
            empty_sky_mask: Vec::new(),
            empty_block_mask: Vec::new(),
            sky_arrays: Vec::new(),
            block_arrays: Vec::new(),
        };
        assert(light@.sky_arrays =~= Seq::empty());
        assert(light@.block_arrays =~= Seq::empty());
        light
    }
}

/// One immutable, semantically complete retained version of a chunk.
#[derive(Debug)]
pub struct ChunkSnapshot {
    pub x: i32,
    pub z: i32,
    pub sections: Vec<Arc<ChunkSection>>,
    pub heightmaps: Arc<Nbt>,
    pub block_entities: Arc<Vec<BlockEntitySnapshot>>,
    pub light: Arc<ChunkLight>,
}

/// What a snapshot holds.
#[verifier::ext_equal]
pub struct SnapshotModel {
    pub x: i32,
    pub z: i32,
    pub sections: Seq<SectionModel>,
    pub heightmaps: Nbt,
    pub block_entities: Seq<BlockEntitySnapshot>,
    pub light: LightModel,
}

/// The models of shared sections, in order.
pub open spec fn shared_sections(sections: Seq<Arc<ChunkSection>>) -> Seq<SectionModel> {
    Seq::new(sections.len(), |i: int| sections[i]@)
}

impl View for ChunkSnapshot {
    type V = SnapshotModel;

    open spec fn view(&self) -> SnapshotModel {
        SnapshotModel {
            x: self.x,
            z: self.z,
            sections: shared_sections(self.sections@),
            heightmaps: *self.heightmaps,
            block_entities: self.block_entities@,
            light: self.light@,
        }
    }
}

/// A block entity as the packet gives it.
pub open spec fn entity_of(e: ChunkBlockEntity) -> BlockEntitySnapshot {
    BlockEntitySnapshot {
        local_x: e.local_x,
        local_z: e.local_z,
        y: e.y,
        kind: e.kind,
        nbt: e.nbt_data,
    }
}

/// The snapshot that a packet describes.
pub open spec fn snapshot_of(packet: PacketMapChunk, section_count: nat) -> Result<
    SnapshotModel,
    Seq<char>,
> {
    match chunk_of(packet, section_count) {
        Ok(chunk) => Ok(
            SnapshotModel {
                x: chunk.x,
                z: chunk.z,
                sections: chunk.sections,
                heightmaps: packet.heightmaps,
                block_entities: Seq::new(
                    packet.block_entities@.len(),
                    |i: int| entity_of(packet.block_entities@[i]),
                ),
                light: light_of(packet),
            },
        ),
        Err(text) => Err(text),
    }
}

fn copy_tag(tag: &Option<Nbt>) -> (out: Option<Nbt>)
    ensures
        out == *tag,
{
    match tag {
        Some(nbt) => Some(nbt.clone()),
        None => None,
    }
}

fn share_sections(sections: Vec<ChunkSection>) -> (out: Vec<Arc<ChunkSection>>)
    ensures
        shared_sections(out@) == section_models(sections@),
{
    let ghost all = sections@;
    let mut rest = sections;
    let mut turned: Vec<ChunkSection> = Vec::new();
    while rest.len() > 0
        invariant
            rest@.len() + turned@.len() == all.len(),
            forall|k: int| 0 <= k < rest@.len() ==> #[trigger] rest@[k] == all[k],
            forall|k: int|
                0 <= k < turned@.len() ==> #[trigger] turned@[k] == all[all.len() - 1 - k],
        decreases rest@.len(),
    {
        if let Some(section) = rest.pop() {
            turned.push(section);
        }
    }
    let mut out: Vec<Arc<ChunkSection>> = Vec::new();
    while turned.len() > 0
        invariant
            turned@.len() + out@.len() == all.len(),
            forall|k: int|
                0 <= k < turned@.len() ==> #[trigger] turned@[k] == all[all.len() - 1 - k],
            forall|k: int| 0 <= k < out@.len() ==> *(#[trigger] out@[k]) == all[k],
        decreases turned@.len(),
    {
        if let Some(section) = turned.pop() {
            out.push(Arc::new(section));
        }
    }
    assert(shared_sections(out@) =~= section_models(all));
    out
}

impl ChunkSnapshot {
    /// Decodes a column of this many sections with all that comes with it.
    pub fn decode(packet: &PacketMapChunk, section_count: usize) -> (res: Result<
        Self,
        MineRiderError,
    >)
        ensures
            match (res, snapshot_of(*packet, section_count as nat)) {
                (Ok(s), Ok(model)) => s@ == model,
                (Err(e), Err(text)) => e.is_protocol(text),
                _ => false,
            },
    {
        let decoded = match Chunk::decode(packet, section_count) {
            Ok(chunk) => chunk,
            Err(e) => return Err(e),
        };
        let mut entities: Vec<BlockEntitySnapshot> = Vec::new();
        let mut i: usize = 0;
        while i < packet.block_entities.len()
            invariant
                i <= packet.block_entities@.len(),
                entities@.len() == i,
                forall|k: int|
                    0 <= k < i ==> #[trigger] entities@[k] == entity_of(packet.block_entities@[k]),
            decreases packet.block_entities@.len() - i,
        {
            let e: &ChunkBlockEntity = &packet.block_entities[i];
            entities.push(
                BlockEntitySnapshot {
                    local_x: e.local_x,
                    local_z: e.local_z,
                    y: e.y,
                    kind: e.kind,
                    nbt: copy_tag(&e.nbt_data),
                },
            );
            i += 1;
        }
        let snapshot = ChunkSnapshot {
            x: decoded.x,
            z: decoded.z,
            sections: share_sections(decoded.sections),
            heightmaps: Arc::new(packet.heightmaps.clone()),
            block_entities: Arc::new(entities),
            light: Arc::new(ChunkLight::from_map_chunk(packet)),
        };
        proof {
            let want = snapshot_of(*packet, section_count as nat)->Ok_0;
            assert(snapshot@.block_entities =~= want.block_entities);
        }
        Ok(snapshot)
    }
}

/// The byte form of a section.
pub open spec fn section_bytes(s: SectionModel) -> Seq<u8> {
    le_bytes(s.non_air_blocks as nat, 2) + container_bytes(s.block_states) + container_bytes(
        s.biomes,
    )
}

/// Sections one after the other.
pub open spec fn sections_bytes(s: Seq<SectionModel>) -> Seq<u8>
    decreases s.len(),
{
    if s.len() == 0 {
        Seq::empty()
    } else {
        sections_bytes(s.drop_last()) + section_bytes(s.last())
    }
}

/// A tag behind the length of its bytes.
pub open spec fn counted_tag(n: Nbt) -> Seq<u8> {
    le_bytes(tag_bytes(n)->0.len(), 8) + tag_bytes(n)->0
}

/// The byte form of a block entity.
pub open spec fn entity_bytes(e: BlockEntitySnapshot) -> Seq<u8> {
    seq![e.local_x, e.local_z] + le_bytes((e.y as u16) as nat, 2) + le_bytes(
        (e.kind as u32) as nat,
        4,
    ) + match e.nbt {
        Some(nbt) => seq![1u8] + counted_tag(nbt),
        None => seq![0u8],
    }
}

/// Block entities one after the other.
pub open spec fn entities_bytes(s: Seq<BlockEntitySnapshot>) -> Seq<u8>
    decreases s.len(),
{
    if s.len() == 0 {
        Seq::empty()
    } else {
        entities_bytes(s.drop_last()) + entity_bytes(s.last())
    }
}

/// The byte form of masks: their count, then the masks.
pub open spec fn masks_bytes(s: Seq<i64>) -> Seq<u8> {
    le_bytes(s.len(), 8) + signed_longs_bytes(s)
}

/// Byte arrays one after the other, each behind its length.
pub open spec fn layers_bytes(s: Seq<Seq<u8>>) -> Seq<u8>
    decreases s.len(),
{
    if s.len() == 0 {
        Seq::empty()
    } else {
        layers_bytes(s.drop_last()) + (le_bytes(s.last().len(), 8) + s.last())
    }
}

/// The byte form of light.
pub open spec fn light_bytes(l: LightModel) -> Seq<u8> {
    masks_bytes(l.sky_mask) + masks_bytes(l.block_mask) + masks_bytes(l.empty_sky_mask)
        + masks_bytes(l.empty_block_mask) + (le_bytes(l.sky_arrays.len(), 8) + layers_bytes(
        l.sky_arrays,
    )) + (le_bytes(l.block_arrays.len(), 8) + layers_bytes(l.block_arrays))
}

/// Whether every tag of a snapshot can be written.
pub open spec fn writable(m: SnapshotModel) -> bool {
    &&& tag_bytes(m.heightmaps) is Some
    &&& forall|i: int|
        0 <= i < m.block_entities.len() ==> ((#[trigger] m.block_entities[i]).nbt matches Some(nbt)
            ==> tag_bytes(nbt) is Some)
}

/// The byte form of a snapshot.
pub open spec fn snapshot_bytes(m: SnapshotModel) -> Seq<u8> {
    le_bytes((m.x as u32) as nat, 4) + le_bytes((m.z as u32) as nat, 4) + le_bytes(
        m.sections.len(),
        8,
    ) + sections_bytes(m.sections) + counted_tag(m.heightmaps) + le_bytes(
        m.block_entities.len(),
        8,
    ) + entities_bytes(m.block_entities) + light_bytes(m.light)
}

/// Byte arrays and what they hold have one byte form.
pub proof fn lemma_layers(arrays: Seq<Vec<u8>>)
    ensures
        layers_bytes(arrays_view(arrays)) == arrays_bytes(arrays),
    decreases arrays.len(),
{
    if arrays.len() > 0 {
        lemma_layers(arrays.drop_last());
        assert(arrays_view(arrays).drop_last() =~= arrays_view(arrays.drop_last()));
    }
}

/// Mixes light in.
pub fn hash_light(hash: &mut Fnv64, light: &ChunkLight)
    ensures
        final(hash).0 == fnv(old(hash).0, light_bytes(light@)),
{
    let ghost start = hash.0;
    hash_i64s(hash, &light.sky_mask);
    hash_i64s(hash, &light.block_mask);
    hash_i64s(hash, &light.empty_sky_mask);
    hash_i64s(hash, &light.empty_block_mask);
    hash_byte_arrays(hash, &light.sky_arrays);
    hash_byte_arrays(hash, &light.block_arrays);
    proof {
        let a = masks_bytes(light.sky_mask@);
        let b = masks_bytes(light.block_mask@);
        let c = masks_bytes(light.empty_sky_mask@);
        let d = masks_bytes(light.empty_block_mask@);
        let e = le_bytes(light.sky_arrays@.len(), 8) + arrays_bytes(light.sky_arrays@);
        let f = le_bytes(light.block_arrays@.len(), 8) + arrays_bytes(light.block_arrays@);
        law_hash_continues(start, a, b);
        law_hash_continues(start, a + b, c);
        law_hash_continues(start, a + b + c, d);
        law_hash_continues(start, a + b + c + d, e);
        law_hash_continues(start, a + b + c + d + e, f);
        lemma_layers(light.sky_arrays@);
        lemma_layers(light.block_arrays@);
    }
}

/// Mixes a tag in, behind the length of its bytes; false where it cannot be
/// written.
fn hash_nbt(hash: &mut Fnv64, nbt: &Nbt) -> (done: bool)
    ensures
        done == (tag_bytes(*nbt) is Some),
        done ==> final(hash).0 == fnv(old(hash).0, counted_tag(*nbt)),
{
    let ghost start = hash.0;
    match encode_tag(nbt) {
        Some(bytes) => {
            write_len(hash, bytes.len());
            hash.write(bytes.as_slice());
            proof {
                law_hash_continues(start, le_bytes(bytes@.len(), 8), bytes@);
            }
            true
        },
        None => false,
    }
}

fn hash_section(hash: &mut Fnv64, section: &ChunkSection)
    ensures
        final(hash).0 == fnv(old(hash).0, section_bytes(section@)),
{
    let ghost start = hash.0;
    hash.write_le(section.non_air_blocks as u64, 2);
    hash_container(hash, &section.block_states);
    hash_container(hash, &section.biomes);
    proof {
        let a = le_bytes(section.non_air_blocks as nat, 2);
        let b = container_bytes(section.block_states@);
        law_hash_continues(start, a, b);
        law_hash_continues(start, a + b, container_bytes(section.biomes@));
    }
}

fn hash_entity(hash: &mut Fnv64, entity: &BlockEntitySnapshot) -> (done: bool)
    ensures
        done == (entity.nbt matches Some(nbt) ==> tag_bytes(nbt) is Some),
        done ==> final(hash).0 == fnv(old(hash).0, entity_bytes(*entity)),
{
    let ghost start = hash.0;
    hash.write_byte(entity.local_x);
    hash.write_byte(entity.local_z);
    hash.write_le(entity.y as u16 as u64, 2);
    hash.write_le(entity.kind as u32 as u64, 4);
    let ghost a = seq![entity.local_x];
    let ghost b = seq![entity.local_z];
    let ghost c = le_bytes((entity.y as u16) as nat, 2);
    let ghost d = le_bytes((entity.kind as u32) as nat, 4);
    proof {
        law_hash_continues(start, a, b);
        law_hash_continues(start, a + b, c);
        law_hash_continues(start, a + b + c, d);
        assert(a + b =~= seq![entity.local_x, entity.local_z]);
    }
    match &entity.nbt {
        Some(nbt) => {
            hash.write_byte(1);
            let done = hash_nbt(hash, nbt);
            proof {
                law_hash_continues(start, a + b + c + d, seq![1u8]);
                law_hash_continues(start, a + b + c + d + seq![1u8], counted_tag(*nbt));
                assert(a + b + c + d + seq![1u8] + counted_tag(*nbt) =~= a + b + c + d + (seq![1u8]
                    + counted_tag(*nbt)));
            }
            done
        },
        None => {
            hash.write_byte(0);
            proof {
                law_hash_continues(start, a + b + c + d, seq![0u8]);
            }
            true
        },
    }
}

/// How a tag that cannot be written is reported.
pub const TAG_TOO_LONG: &'static str = "NBT value too long to encode";

impl ChunkSnapshot {
    /// A hash of all that the snapshot holds.
    pub fn fingerprint(&self) -> (res: Result<u64, MineRiderError>)
        ensures
            match res {
                Ok(h) => writable(self@) && h == fnv(FNV_OFFSET, snapshot_bytes(self@)),
                Err(e) => !writable(self@) && e.is_protocol(TAG_TOO_LONG@),
            },
    {
        let mut hash = Fnv64::new();
        let ghost start = hash.0;
        hash.write_le(self.x as u32 as u64, 4);
        hash.write_le(self.z as u32 as u64, 4);
        write_len(&mut hash, self.sections.len());
        let ghost mut done = le_bytes((self.x as u32) as nat, 4);
        proof {
            let z = le_bytes((self.z as u32) as nat, 4);
            let n = le_bytes(self.sections@.len(), 8);
            law_hash_continues(start, done, z);
            law_hash_continues(start, done + z, n);
            done = done + z + n;
        }
        let ghost models = shared_sections(self.sections@);
        let ghost head = done;
        let mut i: usize = 0;
        proof {
            assert(head + sections_bytes(models.take(0)) =~= head);
        }
        while i < self.sections.len()
            invariant
                i <= self.sections@.len(),
                models == shared_sections(self.sections@),
                hash.0 == fnv(start, head + sections_bytes(models.take(i as int))),
            decreases self.sections@.len() - i,
        {
            hash_section(&mut hash, &self.sections[i]);
            i += 1;
            proof {
                assert(models.take(i as int).drop_last() =~= models.take(i - 1));
                let before = head + sections_bytes(models.take(i - 1));
                let more = section_bytes(models[i - 1]);
                law_hash_continues(start, before, more);
                assert(before + more =~= head + sections_bytes(models.take(i as int)));
            }
        }
        proof {
            assert(models.take(i as int) =~= models);
            done = head + sections_bytes(models);
        }
        if !hash_nbt(&mut hash, &self.heightmaps) {
            return Err(protocol_error(TAG_TOO_LONG));
        }
        write_len(&mut hash, self.block_entities.len());
        proof {
            let tag = counted_tag(self@.heightmaps);
            let n = le_bytes(self.block_entities@.len(), 8);
            law_hash_continues(start, done, tag);
            law_hash_continues(start, done + tag, n);
            done = done + tag + n;
        }
        let ghost entities = self.block_entities@;
        let ghost middle = done;
        let mut k: usize = 0;
        proof {
            assert(middle + entities_bytes(entities.take(0)) =~= middle);
        }
        while k < self.block_entities.len()
            invariant
                k <= entities.len(),
                entities == self.block_entities@,
                hash.0 == fnv(start, middle + entities_bytes(entities.take(k as int))),
                forall|j: int|
                    0 <= j < k ==> ((#[trigger] entities[j]).nbt matches Some(nbt) ==> tag_bytes(
                        nbt,
                    ) is Some),
            decreases entities.len() - k,
        {
            if !hash_entity(&mut hash, &self.block_entities[k]) {
                assert(!writable(self@)) by {
                    assert(self@.block_entities[k as int] == entities[k as int]);
                }
                return Err(protocol_error(TAG_TOO_LONG));
            }
            k += 1;
            proof {
                assert(entities.take(k as int).drop_last() =~= entities.take(k - 1));
                let before = middle + entities_bytes(entities.take(k - 1));
                let more = entity_bytes(entities[k - 1]);
                law_hash_continues(start, before, more);
                assert(before + more =~= middle + entities_bytes(entities.take(k as int)));
            }
        }
        proof {
            assert(entities.take(k as int) =~= entities);
            done = middle + entities_bytes(entities);
        }
        hash_light(&mut hash, &self.light);
        proof {
            law_hash_continues(start, done, light_bytes(self.light@));
            assert(done + light_bytes(self.light@) =~= snapshot_bytes(self@));
        }
        Ok(hash.finish())
    }
}

/// Whether two block entities are alike.
pub open spec fn alike_entities(a: BlockEntitySnapshot, b: BlockEntitySnapshot) -> bool {
    &&& a.local_x == b.local_x
    &&& a.local_z == b.local_z
    &&& a.y == b.y
    &&& a.kind == b.kind
    &&& match (a.nbt, b.nbt) {
        (Some(x), Some(y)) => alike(x, y),
        (None, None) => true,
        _ => false,
    }
}

/// Whether two snapshots are alike: everything they hold is the same, with
/// floating-point tags compared as numbers.
pub open spec fn alike_snapshots(a: SnapshotModel, b: SnapshotModel) -> bool {
    &&& a.x == b.x
    &&& a.z == b.z
    &&& a.sections == b.sections
    &&& alike(a.heightmaps, b.heightmaps)
    &&& a.block_entities.len() == b.block_entities.len()
    &&& forall|i: int|
        0 <= i < a.block_entities.len() ==> alike_entities(
            #[trigger] a.block_entities[i],
            b.block_entities[i],
        )
    &&& a.light == b.light
}

fn same_container(a: &PalettedContainer, b: &PalettedContainer) -> (r: bool)
    ensures
        r == (a@ == b@),
{
    match (a, b) {
        (PalettedContainer::Single(x), PalettedContainer::Single(y)) => *x == *y,
        (
            PalettedContainer::Indirect { bits, palette, data },
            PalettedContainer::Indirect { bits: bits2, palette: palette2, data: data2 },
        ) => *bits == *bits2 && same_numbers(palette, palette2) && same_numbers(data, data2),
        (
            PalettedContainer::Direct { bits, data },
            PalettedContainer::Direct { bits: bits2, data: data2 },
        ) => *bits == *bits2 && same_numbers(data, data2),
        _ => false,
    }
}

fn same_sections(a: &Vec<Arc<ChunkSection>>, b: &Vec<Arc<ChunkSection>>) -> (r: bool)
    ensures
        r == (shared_sections(a@) == shared_sections(b@)),
{
    let ghost x = shared_sections(a@);
    let ghost y = shared_sections(b@);
    if a.len() != b.len() {
        assert(x.len() != y.len());
        return false;
    }
    let mut i: usize = 0;
    while i < a.len()
        invariant
            i <= a@.len(),
            a@.len() == b@.len(),
            x == shared_sections(a@),
            y == shared_sections(b@),
            forall|k: int| 0 <= k < i ==> #[trigger] x[k] == y[k],
        decreases a@.len() - i,
    {
        let s: &ChunkSection = &a[i];
        let t: &ChunkSection = &b[i];
        proof {
            assert(x[i as int] == s@ && y[i as int] == t@);
        }
        if s.non_air_blocks != t.non_air_blocks || !same_container(&s.block_states, &t.block_states)
            || !same_container(&s.biomes, &t.biomes) {
            return false;
        }
        i += 1;
    }
    assert(x =~= y);
    true
}

fn same_entity(a: &BlockEntitySnapshot, b: &BlockEntitySnapshot) -> (r: bool)
    ensures
        r == alike_entities(*a, *b),
{
    if a.local_x != b.local_x || a.local_z != b.local_z || a.y != b.y || a.kind != b.kind {
        return false;
    }
    match (&a.nbt, &b.nbt) {
        (Some(x), Some(y)) => same_tag(x, y),
        (None, None) => true,
        _ => false,
    }
}

fn same_arrays(a: &Vec<Vec<u8>>, b: &Vec<Vec<u8>>) -> (r: bool)
    ensures
        r == (arrays_view(a@) == arrays_view(b@)),
{
    let ghost x = arrays_view(a@);
    let ghost y = arrays_view(b@);
    if a.len() != b.len() {
        assert(x.len() != y.len());
        return false;
    }
    let mut i: usize = 0;
    while i < a.len()
        invariant
            i <= a@.len(),
            a@.len() == b@.len(),
            x == arrays_view(a@),
            y == arrays_view(b@),
            forall|k: int| 0 <= k < i ==> #[trigger] x[k] == y[k],
        decreases a@.len() - i,
    {
        proof {
            assert(x[i as int] == a@[i as int]@ && y[i as int] == b@[i as int]@);
        }
        if !same_numbers(&a[i], &b[i]) {
            return false;
        }
        i += 1;
    }
    assert(x =~= y);
    true
}

fn same_light(a: &ChunkLight, b: &ChunkLight) -> (r: bool)
    ensures
        r == (a@ == b@),
{
    same_numbers(&a.sky_mask, &b.sky_mask) && same_numbers(&a.block_mask, &b.block_mask) && same_numbers(
        &a.empty_sky_mask,
        &b.empty_sky_mask,
    ) && same_numbers(&a.empty_block_mask, &b.empty_block_mask) && same_arrays(
        &a.sky_arrays,
        &b.sky_arrays,
    ) && same_arrays(&a.block_arrays, &b.block_arrays)
}

/// Whether two snapshots are alike.
pub fn same_snapshot(a: &ChunkSnapshot, b: &ChunkSnapshot) -> (r: bool)
    ensures
        r == alike_snapshots(a@, b@),
{
    if a.x != b.x || a.z != b.z || !same_sections(&a.sections, &b.sections) {
        return false;
    }
    if !same_tag(&a.heightmaps, &b.heightmaps) || a.block_entities.len() != b.block_entities.len() {
        return false;
    }
    let mut i: usize = 0;
    while i < a.block_entities.len()
        invariant
            i <= a.block_entities@.len(),
            a.block_entities@.len() == b.block_entities@.len(),
            forall|k: int|
                0 <= k < i ==> alike_entities(
                    #[trigger] a@.block_entities[k],
                    b@.block_entities[k],
                ),
        decreases a.block_entities@.len() - i,
    {
        if !same_entity(&a.block_entities[i], &b.block_entities[i]) {
            assert(!alike_entities(a@.block_entities[i as int], b@.block_entities[i as int]));
            return false;
        }
        i += 1;
    }
    same_light(&a.light, &b.light)
}

/// A server, by the address that was asked for.
#[derive(Debug)]
pub struct ServerIdentity {
    pub host: String,
    pub port: u16,
}

impl ServerIdentity {
    /// A server at this host and port.
    pub fn new(host: &str, port: u16) -> (s: Self)
        ensures
            s.host@ == host@,
            s.port == port,
    {
        ServerIdentity { host: host.to_owned(), port }
    }
}

/// One world: a server, how many times it was entered, and the dimension.
#[derive(Debug)]
pub struct WorldScope {
    pub server: ServerIdentity,
    pub generation: u64,
    pub dimension: DimensionType,
}

/// What tells worlds apart.
#[verifier::ext_equal]
pub struct ScopeModel {
    pub host: Seq<char>,
    pub port: u16,
    pub generation: u64,
    pub dimension: Seq<char>,
    pub min_y: i32,
    pub height: i32,
    pub logical_height: i32,
    pub coordinate_scale: u64,
    pub ultrawarm: bool,
    pub has_ceiling: bool,
}

impl View for WorldScope {
    type V = ScopeModel;

    open spec fn view(&self) -> ScopeModel {
        ScopeModel {
            host: self.server.host@,
            port: self.server.port,
            generation: self.generation,
            dimension: self.dimension.key@,
            min_y: self.dimension.min_y,
            height: self.dimension.height,
            logical_height: self.dimension.logical_height,
            coordinate_scale: self.dimension.coordinate_scale,
            ultrawarm: self.dimension.ultrawarm,
            has_ceiling: self.dimension.has_ceiling,
        }
    }
}

impl WorldScope {
    /// The world of a server that is entered for the `generation`th time.
    pub fn new(server: ServerIdentity, generation: u64, dimension: &DimensionType) -> (s: Self)
        ensures
            s.server == server,
            s.generation == generation,
            s.dimension == *dimension,
    {
        WorldScope { server, generation, dimension: dimension.clone() }
    }

    /// Another scope of the same world.
    pub fn copy(&self) -> (s: Self)
        ensures
            s == *self,
    {
        WorldScope {
            server: ServerIdentity { host: self.server.host.clone(), port: self.server.port },
            generation: self.generation,
            dimension: self.dimension.clone(),
        }
    }

    fn same(&self, other: &WorldScope) -> (r: bool)
        ensures
            r == (self@ == other@),
    {
        let a = &self.dimension;
        let b = &other.dimension;
        same_text(self.server.host.as_str(), other.server.host.as_str()) && self.server.port
            == other.server.port && self.generation == other.generation && same_text(
            a.key.as_str(),
            b.key.as_str(),
        ) && a.min_y == b.min_y && a.height == b.height && a.logical_height == b.logical_height
            && a.coordinate_scale == b.coordinate_scale && a.ultrawarm == b.ultrawarm
            && a.has_ceiling == b.has_ceiling
    }
}

/// What payloads are looked up by.
#[derive(Debug)]
pub struct InternKey {
    pub scope: WorldScope,
    pub x: i32,
    pub z: i32,
    pub fingerprint: u64,
}

/// What tells keys apart.
#[verifier::ext_equal]
pub struct KeyModel {
    pub scope: ScopeModel,
    pub x: i32,
    pub z: i32,
    pub fingerprint: u64,
}

impl View for InternKey {
    type V = KeyModel;

    open spec fn view(&self) -> KeyModel {
        KeyModel { scope: self.scope@, x: self.x, z: self.z, fingerprint: self.fingerprint }
    }
}

impl InternKey {
    fn same(&self, other: &InternKey) -> (r: bool)
        ensures
            r == (self@ == other@),
    {
        self.fingerprint == other.fingerprint && self.x == other.x && self.z == other.z
            && self.scope.same(&other.scope)
    }
}

/// A reference to a payload that does not keep it alive: `std::sync::Weak`, whose
/// allocator parameter keeps it from being declared itself.
#[verifier::external_body]
pub struct WeakPayload(Weak<ChunkSnapshot>);

/// The payload that a reference was made from.
pub uninterp spec fn referent(handle: WeakPayload) -> SnapshotModel;

impl WeakPayload {
    /// Whether an upgrade of the reference gave this.
    pub closed spec fn gave(self, payload: Option<Arc<ChunkSnapshot>>) -> bool {
        call_ensures(WeakPayload::upgrade, (&self,), payload)
    }

    /// `std::sync::Arc::downgrade` makes a reference to this payload.
    #[verifier::external_body]
    fn downgrade(payload: &Arc<ChunkSnapshot>) -> (handle: Self)
        ensures
            referent(handle) == payload@,
    {
        WeakPayload(Arc::downgrade(payload))
    }

    /// `std::sync::Weak::upgrade` gives the payload back, if something still
    /// keeps it alive. Whether something does is not said.
    #[verifier::external_body]
    fn upgrade(&self) -> (payload: Option<Arc<ChunkSnapshot>>)
        ensures
            payload matches Some(p) ==> p@ == referent(*self),
    {
        self.0.upgrade()
    }
}

/// What an upgrade gave is the payload that the reference was made from.
pub proof fn lemma_gave(handle: WeakPayload, payload: Arc<ChunkSnapshot>)
    requires
        handle.gave(Some(payload)),
    ensures
        payload@ == referent(handle),
{
}

/// Whether an upgrade of a handle told that its payload is alive, or that it is
/// not.
pub open spec fn told(handle: WeakPayload, alive: bool) -> bool {
    if alive {
        exists|payload: Arc<ChunkSnapshot>| #[trigger] handle.gave(Some(payload))
    } else {
        handle.gave(None)
    }
}

/// Whether these are the answers of upgrades, one for every handle.
pub open spec fn all_told(handles: Seq<WeakPayload>, alive: Seq<bool>) -> bool {
    &&& alive.len() == handles.len()
    &&& forall|i: int| 0 <= i < handles.len() ==> told(handles[i], #[trigger] alive[i])
}

/// What is found behind a handle.
#[derive(Debug, Clone, Copy, PartialEq, Eq, Structural)]
pub enum Sighting {
    /// Nothing keeps the payload alive.
    Gone,
    /// A payload that differs.
    Other,
    /// A payload that is alike.
    Same,
}

/// What becomes of a payload whose key is known.
#[derive(Debug, Clone, Copy, PartialEq, Eq, Structural)]
pub enum Placement {
    /// The payload behind this handle stands in for it.
    Reuse(usize),
    /// It gets a handle of its own.
    Added,
    /// It is handed out without one: its bucket is full.
    Uncached,
}

/// How many handles still lead to a payload.
pub open spec fn live(alive: Seq<bool>) -> nat
    decreases alive.len(),
{
    if alive.len() == 0 {
        0
    } else {
        live(alive.drop_last()) + if alive.last() {
            1nat
        } else {
            0nat
        }
    }
}

/// Which handles still lead to a payload.
pub open spec fn alive_flags(seen: Seq<Sighting>) -> Seq<bool> {
    Seq::new(seen.len(), |i: int| seen[i] != Sighting::Gone)
}

/// What is found behind handles, given which of them are alive.
pub open spec fn sightings(
    handles: Seq<WeakPayload>,
    alive: Seq<bool>,
    snapshot: SnapshotModel,
) -> Seq<Sighting> {
    Seq::new(
        handles.len(),
        |i: int|
            if !alive[i] {
                Sighting::Gone
            } else if alike_snapshots(referent(handles[i]), snapshot) {
                Sighting::Same
            } else {
                Sighting::Other
            },
    )
}

/// The place of the first payload that is alike.
pub open spec fn first_same(seen: Seq<Sighting>) -> Option<nat>
    decreases seen.len(),
{
    if seen.len() == 0 {
        None
    } else {
        match first_same(seen.drop_last()) {
            Some(i) => Some(i),
            None => if seen.last() == Sighting::Same {
                Some((seen.len() - 1) as nat)
            } else {
                None
            },
        }
    }
}

/// What becomes of a payload, given what is behind the handles of its key.
pub open spec fn placement_of(seen: Seq<Sighting>, room: nat) -> Placement {
    match first_same(seen) {
        Some(i) => Placement::Reuse(i as usize),
        None => if live(alive_flags(seen)) < room {
            Placement::Added
        } else {
            Placement::Uncached
        },
    }
}

/// Decides what becomes of a payload: the first that is alike stands in for
/// it; otherwise it is kept while its bucket has room for it.
pub fn place_payload(seen: &Vec<Sighting>, room: usize) -> (p: Placement)
    ensures
        p == placement_of(seen@, room as nat),
{
    let mut first: Option<usize> = None;
    let mut alive: usize = 0;
    let mut i: usize = 0;
    assert(seen@.take(0) =~= Seq::empty());
    assert(alive_flags(seen@.take(0)) =~= Seq::empty());
    while i < seen.len()
        invariant
            i <= seen@.len(),
            alive <= i,
            alive == live(alive_flags(seen@.take(i as int))),
            first is Some <==> first_same(seen@.take(i as int)) is Some,
            first matches Some(k) ==> first_same(seen@.take(i as int)) == Some(k as nat),
        decreases seen@.len() - i,
    {
        assert(seen@.take(i + 1).drop_last() =~= seen@.take(i as int));
        assert(alive_flags(seen@.take(i + 1)).drop_last() =~= alive_flags(seen@.take(i as int)));
        match seen[i] {
            Sighting::Gone => {},
            Sighting::Other => {
                alive += 1;
            },
            Sighting::Same => {
                alive += 1;
                if first.is_none() {
                    first = Some(i);
                }
            },
        }
        i += 1;
    }
    assert(seen@.take(i as int) =~= seen@);
    match first {
        Some(k) => Placement::Reuse(k),
        None => if alive < room {
            Placement::Added
        } else {
            Placement::Uncached
        },
    }
}

/// The handles that still lead to a payload, in order.
pub open spec fn kept<W>(handles: Seq<W>, alive: Seq<bool>) -> Seq<W>
    decreases handles.len(),
{
    if handles.len() == 0 {
        Seq::empty()
    } else if alive[handles.len() - 1] {
        kept(handles.drop_last(), alive).push(handles.last())
    } else {
        kept(handles.drop_last(), alive)
    }
}

/// As many handles are kept as lead to a payload.
proof fn lemma_kept_len<W>(handles: Seq<W>, alive: Seq<bool>)
    requires
        handles.len() <= alive.len(),
    ensures
        kept(handles, alive).len() == live(alive.take(handles.len() as int)),
        kept(handles, alive).len() <= handles.len(),
    decreases handles.len(),
{
    let n = handles.len() as int;
    if n > 0 {
        lemma_kept_len(handles.drop_last(), alive);
        assert(alive.take(n).drop_last() =~= alive.take(n - 1));
    } else {
        assert(alive.take(0) =~= Seq::empty());
    }
}

/// Drops the handles that lead nowhere.
pub fn keep_alive<W>(handles: &mut Vec<W>, alive: &Vec<bool>)
    requires
        alive@.len() == old(handles)@.len(),
    ensures
        final(handles)@ == kept(old(handles)@, alive@),
{
    let ghost start = handles@;
    let mut i: usize = 0;
    let mut j: usize = 0;
    assert(start.take(0) =~= Seq::empty());
    assert(handles@ =~= kept(start.take(0), alive@) + start.skip(0));
    while j < alive.len()
        invariant
            i <= j <= alive@.len(),
            alive@.len() == start.len(),
            i == kept(start.take(j as int), alive@).len(),
            handles@ == kept(start.take(j as int), alive@) + start.skip(j as int),
        decreases alive@.len() - j,
    {
        let ghost before = kept(start.take(j as int), alive@);
        proof {
            assert(start.take(j + 1).drop_last() =~= start.take(j as int));
            assert(handles@[i as int] == start[j as int]);
        }
        if alive[j] {
            i += 1;
            assert(handles@ =~= before.push(start[j as int]) + start.skip(j + 1));
        } else {
            handles.remove(i);
            assert(handles@ =~= before + start.skip(j + 1));
        }
        j += 1;
    }
    proof {
        assert(start.take(j as int) =~= start);
        assert(handles@ =~= kept(start, alive@));
    }
}

/// What a lookup under a known key does to the handles of the key, and which
/// payload it hands out, given which handles are alive. A payload that is alive
/// and alike is handed out itself; otherwise the snapshot is, and a handle on it
/// is kept where there is room.
pub open spec fn payload_placed(
    before: Seq<WeakPayload>,
    alive: Seq<bool>,
    room: nat,
    snapshot: SnapshotModel,
    after: Seq<WeakPayload>,
    handed: Arc<ChunkSnapshot>,
) -> bool {
    let left = kept(before, alive);
    &&& all_told(before, alive)
    &&& match placement_of(sightings(before, alive, snapshot), room) {
        Placement::Reuse(i) => {
            &&& after == left
            &&& before[i as int].gave(Some(handed))
            &&& alike_snapshots(handed@, snapshot)
        },
        Placement::Added => {
            &&& handed@ == snapshot
            &&& after.len() == left.len() + 1
            &&& after.drop_last() == left
            &&& referent(after.last()) == snapshot
        },
        Placement::Uncached => handed@ == snapshot && after == left,
    }
}

/// A key and the handles on the payloads that share it.
pub struct Slot {
    pub key: InternKey,
    pub bucket: Vec<WeakPayload>,
}

/// The keys of slots, oldest first.
pub open spec fn slot_keys(slots: Seq<Slot>) -> Seq<KeyModel> {
    Seq::new(slots.len(), |i: int| slots[i].key@)
}

/// The keys and the handles of slots, oldest first.
pub open spec fn slot_contents(slots: Seq<Slot>) -> Seq<(InternKey, Seq<WeakPayload>)> {
    Seq::new(slots.len(), |i: int| (slots[i].key, slots[i].bucket@))
}

/// Whether there is a flag for every handle.
pub open spec fn flags_fit(slots: Seq<(InternKey, Seq<WeakPayload>)>, alive: Seq<Seq<bool>>) -> bool {
    &&& alive.len() == slots.len()
    &&& forall|i: int| 0 <= i < slots.len() ==> (#[trigger] alive[i]).len() == slots[i].1.len()
}

/// Whether these are the answers of upgrades, for every handle of every key.
pub open spec fn flags_told(
    slots: Seq<(InternKey, Seq<WeakPayload>)>,
    alive: Seq<Seq<bool>>,
) -> bool {
    &&& alive.len() == slots.len()
    &&& forall|i: int| 0 <= i < slots.len() ==> all_told(slots[i].1, #[trigger] alive[i])
}

/// What is left of slots: handles that lead to a payload, and keys that have
/// such handles, in order.
pub open spec fn pruned(slots: Seq<(InternKey, Seq<WeakPayload>)>, alive: Seq<Seq<bool>>) -> Seq<
    (InternKey, Seq<WeakPayload>),
>
    decreases slots.len(),
{
    if slots.len() == 0 {
        Seq::empty()
    } else {
        let rest = pruned(slots.drop_last(), alive);
        let left = kept(slots.last().1, alive[slots.len() - 1]);
        if left.len() == 0 {
            rest
        } else {
            rest.push((slots.last().0, left))
        }
    }
}

/// How many handles lead to a payload.
pub open spec fn total_live(alive: Seq<Seq<bool>>) -> nat
    decreases alive.len(),
{
    if alive.len() == 0 {
        0
    } else {
        total_live(alive.drop_last()) + live(alive.last())
    }
}

/// A part of the store: the keys it knows, oldest first.
pub struct StoreShard {
    pub slots: Vec<Slot>,
    pub max_keys: usize,
    pub max_collisions: usize,
    pub evictions: u64,
    pub uncached_collision_payloads: u64,
}

impl StoreShard {
    /// The keys it knows, oldest first.
    pub open spec fn keys(self) -> Seq<KeyModel> {
        slot_keys(self.slots@)
    }

    /// What it knows, oldest first.
    pub open spec fn contents(self) -> Seq<(InternKey, Seq<WeakPayload>)> {
        slot_contents(self.slots@)
    }

    /// No key occurs twice, and neither keys nor buckets exceed their bounds.
    pub open spec fn valid(self) -> bool {
        &&& self.max_keys > 0
        &&& self.max_collisions > 0
        &&& self.slots@.len() <= self.max_keys
        &&& self.keys().no_duplicates()
        &&& forall|i: int|
            0 <= i < self.slots@.len() ==> (#[trigger] self.slots@[i]).bucket@.len()
                <= self.max_collisions
    }

    /// The same bounds.
    pub open spec fn same_limits(self, other: Self) -> bool {
        self.max_keys == other.max_keys && self.max_collisions == other.max_collisions
    }
}

/// What a lookup under a known key does to a shard: only the handles of that key
/// change.
pub open spec fn known_interned(
    before: StoreShard,
    at: int,
    alive: Seq<bool>,
    snapshot: SnapshotModel,
    after: StoreShard,
    handed: Arc<ChunkSnapshot>,
) -> bool {
    let handles = before.slots@[at].bucket@;
    let room = before.max_collisions as nat;
    &&& 0 <= at < before.slots@.len()
    &&& after.slots@.len() == before.slots@.len()
    &&& after.slots@[at].key == before.slots@[at].key
    &&& payload_placed(handles, alive, room, snapshot, after.slots@[at].bucket@, handed)
    &&& forall|i: int|
        0 <= i < before.slots@.len() && i != at ==> (#[trigger] after.slots@[i]) == before.slots@[i]
    &&& after.evictions == before.evictions
    &&& after.uncached_collision_payloads == before.uncached_collision_payloads.wrapping_add(
        if placement_of(sightings(handles, alive, snapshot), room) == Placement::Uncached {
            1
        } else {
            0
        },
    )
}

/// What a lookup under a new key does to a shard: the key comes last, with one
/// handle, and the oldest leaves where the shard is full.
pub open spec fn new_interned(
    before: StoreShard,
    key: KeyModel,
    snapshot: SnapshotModel,
    after: StoreShard,
) -> bool {
    let dropped: int = if before.slots@.len() >= before.max_keys {
        1
    } else {
        0
    };
    &&& after.slots@.len() > 0
    &&& after.slots@.drop_last() == before.slots@.skip(dropped)
    &&& after.slots@.last().key@ == key
    &&& after.slots@.last().bucket@.len() == 1
    &&& referent(after.slots@.last().bucket@[0]) == snapshot
    &&& after.evictions == before.evictions.wrapping_add(dropped as u64)
    &&& after.uncached_collision_payloads == before.uncached_collision_payloads
}

/// What a lookup does to a shard, and which payload it hands out: one that is
/// alike and alive under the same key, or the snapshot itself.
pub open spec fn interned(
    before: StoreShard,
    key: KeyModel,
    snapshot: SnapshotModel,
    after: StoreShard,
    handed: Arc<ChunkSnapshot>,
) -> bool {
    &&& after.same_limits(before)
    &&& if before.keys().contains(key) {
        exists|at: int, alive: Seq<bool>|
            {
                &&& #[trigger] known_interned(before, at, alive, snapshot, after, handed)
                &&& before.slots@[at].key@ == key
            }
    } else {
        new_interned(before, key, snapshot, after) && handed@ == snapshot
    }
}

impl StoreShard {
    /// An empty shard with these bounds.
    pub fn new(max_keys: usize, max_collisions: usize) -> (s: Self)
        requires
            max_keys > 0,
            max_collisions > 0,
        ensures
            s.valid(),
            s.slots@ == Seq::<Slot>::empty(),
            s.max_keys == max_keys,
            s.max_collisions == max_collisions,
            s.evictions == 0,
            s.uncached_collision_payloads == 0,
    {
        StoreShard {
            slots: Vec::new(),
            max_keys,
            max_collisions,
            evictions: 0,
            uncached_collision_payloads: 0,
        }
    }

    fn find(&self, key: &InternKey) -> (at: Option<usize>)
        ensures
            match at {
                Some(i) => i < self.slots@.len() && self.keys()[i as int] == key@,
                None => !self.keys().contains(key@),
            },
    {
        let mut i: usize = 0;
        while i < self.slots.len()
            invariant
                i <= self.slots@.len(),
                forall|k: int| 0 <= k < i ==> #[trigger] self.keys()[k] != key@,
            decreases self.slots@.len() - i,
        {
            if self.slots[i].key.same(key) {
                return Some(i);
            }
            assert(self.keys()[i as int] != key@);
            i += 1;
        }
        None
    }

    /// Hands out the payload that stands for this snapshot: one that is alike
    /// and still alive under the same key, or the snapshot itself. A new key
    /// pushes the oldest out where the shard is full.
    pub fn intern(&mut self, key: InternKey, snapshot: ChunkSnapshot) -> (r: Arc<ChunkSnapshot>)
        requires
            old(self).valid(),
        ensures
            final(self).valid(),
            interned(*old(self), key@, snapshot@, *final(self), r),
    {
        match self.find(&key) {
            Some(at) => {
                proof {
                    assert(self.keys().contains(key@)) by {
                        assert(self.keys()[at as int] == key@);
                    }
                }
                self.intern_known(at, snapshot)
            },
            None => self.intern_new(key, snapshot),
        }
    }

    /// Looks behind handles for a payload that is like this one: which are alive,
    /// what is found, and the first payload that is alike.
    fn look(bucket: &Vec<WeakPayload>, snapshot: &ChunkSnapshot) -> (r: (
        Vec<bool>,
        Vec<Sighting>,
        Option<Arc<ChunkSnapshot>>,
    ))
        ensures
            all_told(bucket@, r.0@),
            r.1@ == sightings(bucket@, r.0@, snapshot@),
            match first_same(r.1@) {
                Some(i) => i < bucket@.len() && (r.2 matches Some(p) && bucket@[i as int].gave(
                    Some(p),
                ) && alike_snapshots(p@, snapshot@)),
                None => r.2 is None,
            },
    {
        let mut alive: Vec<bool> = Vec::new();
        let mut seen: Vec<Sighting> = Vec::new();
        let mut stand_in: Option<Arc<ChunkSnapshot>> = None;
        while seen.len() < bucket.len()
            invariant
                seen@.len() <= bucket@.len(),
                all_told(bucket@.take(seen@.len() as int), alive@),
                seen@ == sightings(bucket@.take(seen@.len() as int), alive@, snapshot@),
                match first_same(seen@) {
                    Some(i) => i < seen@.len() && (stand_in matches Some(p)
                        && bucket@[i as int].gave(Some(p)) && alike_snapshots(p@, snapshot@)),
                    None => stand_in is None,
                },
            decreases bucket@.len() - seen@.len(),
        {
            let ghost before = seen@;
            let ghost flags = alive@;
            let i: usize = seen.len();
            let found = bucket[i].upgrade();
            proof {
                assert(bucket@[i as int].gave(found));
                assert(told(bucket@[i as int], found is Some));
            }
            match found {
                None => {
                    alive.push(false);
                    seen.push(Sighting::Gone);
                },
                Some(candidate) => {
                    alive.push(true);
                    if same_snapshot(&candidate, snapshot) {
                        seen.push(Sighting::Same);
                        if stand_in.is_none() {
                            stand_in = Some(candidate);
                        }
                    } else {
                        seen.push(Sighting::Other);
                    }
                },
            }
            proof {
                let front = bucket@.take(i + 1);
                assert(seen@.drop_last() =~= before);
                assert(all_told(front, alive@)) by {
                    assert forall|k: int| 0 <= k < front.len() implies told(
                        front[k],
                        #[trigger] alive@[k],
                    ) by {
                        if k < i {
                            assert(told(bucket@.take(i as int)[k], flags[k]));
                        }
                    }
                }
                assert(seen@ =~= sightings(front, alive@, snapshot@)) by {
                    assert forall|k: int| 0 <= k < i implies seen@[k] == sightings(
                        front,
                        alive@,
                        snapshot@,
                    )[k] by {
                        assert(before[k] == sightings(
                            bucket@.take(i as int),
                            flags,
                            snapshot@,
                        )[k]);
                    }
                }
            }
        }
        assert(bucket@.take(seen@.len() as int) =~= bucket@);
        (alive, seen, stand_in)
    }

    fn intern_known(&mut self, at: usize, snapshot: ChunkSnapshot) -> (r: Arc<ChunkSnapshot>)
        requires
            old(self).valid(),
            at < old(self).slots@.len(),
        ensures
            final(self).valid(),
            final(self).same_limits(*old(self)),
            exists|alive: Seq<bool>| #[trigger]
                known_interned(*old(self), at as int, alive, snapshot@, *final(self), r),
    {
        let ghost start = self.slots@;
        let (alive, seen, stand_in) = Self::look(&self.slots[at].bucket, &snapshot);
        keep_alive(&mut self.slots[at].bucket, &alive);
        let ghost left = self.slots@[at as int].bucket@;
        proof {
            lemma_kept_len(start[at as int].bucket@, alive@);
            assert(alive@.take(alive@.len() as int) =~= alive@);
            assert(start[at as int].bucket@.len() <= old(self).max_collisions);
            assert(alive_flags(seen@) =~= alive@);
        }
        let payload = match place_payload(&seen, self.max_collisions) {
            Placement::Reuse(_) => match stand_in {
                Some(candidate) => candidate,
                None => Arc::new(snapshot),
            },
            Placement::Added => {
                let payload = Arc::new(snapshot);
                self.slots[at].bucket.push(WeakPayload::downgrade(&payload));
                assert(self.slots@[at as int].bucket@.drop_last() =~= left);
                payload
            },
            Placement::Uncached => {
                self.uncached_collision_payloads = self.uncached_collision_payloads.wrapping_add(1);
                Arc::new(snapshot)
            },
        };
        proof {
            assert(self.keys() =~= old(self).keys());
            assert forall|k: int| 0 <= k < self.slots@.len() implies (
            #[trigger] self.slots@[k]).bucket@.len() <= self.max_collisions by {
                assert(start[k].bucket@.len() <= old(self).max_collisions);
            }
            assert(known_interned(*old(self), at as int, alive@, snapshot@, *self, payload));
        }
        payload
    }

    fn intern_new(&mut self, key: InternKey, snapshot: ChunkSnapshot) -> (r: Arc<ChunkSnapshot>)
        requires
            old(self).valid(),
            !old(self).keys().contains(key@),
        ensures
            final(self).valid(),
            final(self).same_limits(*old(self)),
            r@ == snapshot@,
            new_interned(*old(self), key@, snapshot@, *final(self)),
    {
        let ghost start = self.slots@;
        if self.slots.len() >= self.max_keys {
            self.slots.remove(0);
            self.evictions = self.evictions.wrapping_add(1);
        }
        let ghost dropped: int = if start.len() >= self.max_keys {
            1
        } else {
            0
        };
        let ghost left = self.slots@;
        let ghost keys = slot_keys(start);
        proof {
            assert(left =~= start.skip(dropped));
            assert(slot_keys(left) =~= keys.skip(dropped));
            assert forall|k: int| 0 <= k < left.len() implies (#[trigger] left[k]).bucket@.len()
                <= self.max_collisions by {
                assert(left[k] == start[k + dropped]);
            }
        }
        let payload = Arc::new(snapshot);
        let mut bucket: Vec<WeakPayload> = Vec::new();
        bucket.push(WeakPayload::downgrade(&payload));
        self.slots.push(Slot { key, bucket });
        proof {
            assert(self.slots@.drop_last() =~= left);
            assert(self.keys() =~= keys.skip(dropped).push(key@));
            assert(!keys.skip(dropped).contains(key@)) by {
                if keys.skip(dropped).contains(key@) {
                    let i = choose|i: int|
                        0 <= i < keys.skip(dropped).len() && keys.skip(dropped)[i] == key@;
                    assert(keys[i + dropped] == key@);
                }
            }
            assert(self.keys().no_duplicates());
        }
        payload
    }
}

/// What pruning does to a shard: what nothing keeps alive is forgotten, and so
/// are the keys that have nothing left.
pub open spec fn shard_pruned(before: StoreShard, after: StoreShard) -> bool {
    &&& after.same_limits(before)
    &&& after.evictions == before.evictions
    &&& after.uncached_collision_payloads == before.uncached_collision_payloads
    &&& exists|alive: Seq<Seq<bool>>|
        flags_told(before.contents(), alive) && after.contents() == #[trigger] pruned(
            before.contents(),
            alive,
        )
}

/// Keys that are left were there before, in the same order.
proof fn lemma_pruned_keys(slots: Seq<(InternKey, Seq<WeakPayload>)>, alive: Seq<Seq<bool>>, i: int) -> (
    j: int)
    requires
        0 <= i < pruned(slots, alive).len(),
        flags_fit(slots, alive.take(slots.len() as int)),
        slots.len() <= alive.len(),
    ensures
        i <= j < slots.len(),
        pruned(slots, alive)[i].0 == slots[j].0,
        pruned(slots, alive)[i].1.len() <= slots[j].1.len(),
    decreases slots.len(),
{
    let n = slots.len() as int;
    let short = slots.drop_last();
    let rest = pruned(short, alive);
    lemma_pruned_len(short, alive);
    assert(flags_fit(short, alive.take(n - 1))) by {
        assert forall|k: int| 0 <= k < short.len() implies (#[trigger] alive.take(n - 1)[k]).len()
            == short[k].1.len() by {
            assert(alive.take(n)[k].len() == slots[k].1.len());
        }
    }
    if i < rest.len() {
        lemma_pruned_keys(short, alive, i)
    } else {
        assert(alive.take(n)[n - 1].len() == slots[n - 1].1.len());
        lemma_kept_len(slots.last().1, alive[n - 1]);
        n - 1
    }
}

/// No more is left than was there.
proof fn lemma_pruned_len(slots: Seq<(InternKey, Seq<WeakPayload>)>, alive: Seq<Seq<bool>>)
    ensures
        pruned(slots, alive).len() <= slots.len(),
    decreases slots.len(),
{
    if slots.len() > 0 {
        lemma_pruned_len(slots.drop_last(), alive);
    }
}

/// Keys that differed still differ.
proof fn lemma_pruned_distinct(slots: Seq<(InternKey, Seq<WeakPayload>)>, alive: Seq<Seq<bool>>, a: int, b: int)
    requires
        0 <= a < b < pruned(slots, alive).len(),
        flags_fit(slots, alive.take(slots.len() as int)),
        slots.len() <= alive.len(),
        forall|i: int, j: int|
            0 <= i < j < slots.len() ==> (#[trigger] slots[i]).0@ != (#[trigger] slots[j]).0@,
    ensures
        pruned(slots, alive)[a].0@ != pruned(slots, alive)[b].0@,
    decreases slots.len(),
{
    let n = slots.len() as int;
    let short = slots.drop_last();
    let rest = pruned(short, alive);
    assert(flags_fit(short, alive.take(n - 1))) by {
        assert forall|k: int| 0 <= k < short.len() implies (#[trigger] alive.take(n - 1)[k]).len()
            == short[k].1.len() by {
            assert(alive.take(n)[k].len() == slots[k].1.len());
        }
    }
    assert forall|i: int, j: int| 0 <= i < j < short.len() implies (#[trigger] short[i]).0@ != (
    #[trigger] short[j]).0@ by {
        assert(slots[i].0@ != slots[j].0@);
    }
    if b < rest.len() {
        lemma_pruned_distinct(short, alive, a, b);
    } else {
        let j = lemma_pruned_keys(short, alive, a);
        assert(slots[j].0@ != slots[n - 1].0@);
    }
}

impl StoreShard {
    /// Which handles still lead to a payload.
    fn look_alive(bucket: &Vec<WeakPayload>) -> (alive: Vec<bool>)
        ensures
            all_told(bucket@, alive@),
    {
        let mut alive: Vec<bool> = Vec::new();
        while alive.len() < bucket.len()
            invariant
                alive@.len() <= bucket@.len(),
                forall|k: int| 0 <= k < alive@.len() ==> told(bucket@[k], #[trigger] alive@[k]),
            decreases bucket@.len() - alive@.len(),
        {
            let i: usize = alive.len();
            let found = bucket[i].upgrade();
            proof {
                assert(bucket@[i as int].gave(found));
                assert(told(bucket@[i as int], found is Some));
            }
            alive.push(found.is_some());
        }
        alive
    }

    /// Forgets what nothing keeps alive, and the keys that have nothing left.
    /// What stays keeps its order.
    pub fn prune(&mut self)
        requires
            old(self).valid(),
        ensures
            final(self).valid(),
            shard_pruned(*old(self), *final(self)),
    {
        let ghost start = self.contents();
        let ghost mut flags: Seq<Seq<bool>> = Seq::empty();
        let mut i: usize = 0;
        assert(self.contents() =~= pruned(start.take(0), flags) + start.skip(0));
        while i < self.slots.len()
            invariant
                self.same_limits(*old(self)),
                self.evictions == old(self).evictions,
                self.uncached_collision_payloads == old(self).uncached_collision_payloads,
                start == old(self).contents(),
                flags.len() <= start.len(),
                i == pruned(start.take(flags.len() as int), flags).len(),
                self.contents() == pruned(start.take(flags.len() as int), flags) + start.skip(
                    flags.len() as int,
                ),
                flags_told(start.take(flags.len() as int), flags),
            decreases start.len() - flags.len(),
        {
            let ghost n = flags.len() as int;
            let ghost done = pruned(start.take(n), flags);
            let ghost whole = self.contents();
            assert(whole.len() == self.slots@.len());
            assert(whole[i as int] == start[n]);
            let alive = Self::look_alive(&self.slots[i].bucket);
            keep_alive(&mut self.slots[i].bucket, &alive);
            let ghost left = kept(start[n].1, alive@);
            proof {
                let longer = flags.push(alive@);
                lemma_pruned_agree(start.take(n), flags, longer);
                assert(start.take(n + 1).drop_last() =~= start.take(n));
                assert(flags_told(start.take(n + 1), longer)) by {
                    assert forall|k: int| 0 <= k < n + 1 implies all_told(
                        start.take(n + 1)[k].1,
                        #[trigger] longer[k],
                    ) by {
                        if k < n {
                            assert(all_told(start.take(n)[k].1, flags[k]));
                        }
                    }
                }
                assert(self.contents() =~= whole.update(i as int, (start[n].0, left)));
                assert(whole.update(i as int, (start[n].0, left)) =~= done.push(
                    (start[n].0, left),
                ) + start.skip(n + 1)) by {
                    assert forall|k: int| i < k < whole.len() implies whole[k] == start.skip(n + 1)[k
                        - i - 1] by {
                        assert(whole[k] == start.skip(n)[k - i]);
                    }
                }
                flags = longer;
            }
            let ghost kept_all = self.contents();
            if self.slots[i].bucket.len() == 0 {
                self.slots.remove(i);
                assert(self.contents() =~= kept_all.remove(i as int));
                assert(self.contents() =~= done + start.skip(n + 1));
            } else {
                i += 1;
                assert(self.contents() =~= done.push((start[n].0, left)) + start.skip(n + 1));
            }
        }
        assert(flags.len() == start.len()) by {
            assert(self.contents().len() == self.slots@.len());
        }
        proof {
            assert(start.take(flags.len() as int) =~= start);
            assert(self.contents() =~= pruned(start, flags));
            assert(flags.take(flags.len() as int) =~= flags);
            assert(flags_fit(start, flags));
            assert forall|i: int, j: int| 0 <= i < j < start.len() implies (#[trigger] start[i]).0@
                != (#[trigger] start[j]).0@ by {
                assert(old(self).keys()[i] != old(self).keys()[j]);
            }
            assert forall|a: int, b: int|
                0 <= a < self.keys().len() && 0 <= b < self.keys().len() && a
                    != b implies self.keys()[a] != self.keys()[b] by {
                assert(self.contents()[a].0@ == self.keys()[a]);
                assert(self.contents()[b].0@ == self.keys()[b]);
                if a < b {
                    lemma_pruned_distinct(start, flags, a, b);
                } else {
                    lemma_pruned_distinct(start, flags, b, a);
                }
            }
            assert forall|k: int| 0 <= k < self.slots@.len() implies (
            #[trigger] self.slots@[k]).bucket@.len() <= self.max_collisions by {
                assert(self.contents()[k].1 == self.slots@[k].bucket@);
                let j = lemma_pruned_keys(start, flags, k);
                assert(old(self).slots@[j].bucket@.len() <= old(self).max_collisions);
            }
            assert(self.contents().len() == self.slots@.len());
            lemma_pruned_len(start, flags);
        }
    }

    /// How much the shard knows, and how much of it is still alive.
    pub fn stats(&self) -> (s: SharedChunkStoreStats)
        requires
            handle_count(self.slots@) <= usize::MAX,
        ensures
            s.cache_keys == self.slots@.len(),
            s.weak_entries == handle_count(self.slots@),
            alive_in(*self, s.live_payloads as nat),
            s.live_payloads <= s.weak_entries,
            s.evictions == self.evictions,
            s.uncached_collision_payloads == self.uncached_collision_payloads,
    {
        let mut weak_entries: usize = 0;
        let mut live_payloads: usize = 0;
        let mut i: usize = 0;
        let ghost mut flags: Seq<Seq<bool>> = Seq::empty();
        assert(self.slots@.take(0) =~= Seq::empty());
        while i < self.slots.len()
            invariant
                i <= self.slots@.len(),
                handle_count(self.slots@) <= usize::MAX,
                weak_entries == handle_count(self.slots@.take(i as int)),
                flags.len() == i,
                forall|k: int|
                    0 <= k < i ==> all_told(self.slots@[k].bucket@, #[trigger] flags[k]),
                live_payloads == total_live(flags),
                live_payloads <= weak_entries,
            decreases self.slots@.len() - i,
        {
            proof {
                assert(self.slots@.take(i + 1).drop_last() =~= self.slots@.take(i as int));
                lemma_handle_count(self.slots@, i + 1);
            }
            let alive = Self::look_alive(&self.slots[i].bucket);
            let n: usize = count_alive(&alive);
            proof {
                lemma_live_bound(alive@);
                let longer = flags.push(alive@);
                assert(longer.drop_last() =~= flags);
                flags = longer;
            }
            live_payloads += n;
            weak_entries += self.slots[i].bucket.len();
            i += 1;
        }
        proof {
            assert(self.slots@.take(i as int) =~= self.slots@);
            assert(flags_told(self.contents(), flags));
        }
        SharedChunkStoreStats {
            cache_keys: self.slots.len(),
            weak_entries,
            live_payloads,
            evictions: self.evictions,
            uncached_collision_payloads: self.uncached_collision_payloads,
        }
    }
}

/// Whether upgrades told that this many handles of a shard are alive.
pub open spec fn alive_in(shard: StoreShard, n: nat) -> bool {
    exists|alive: Seq<Seq<bool>>|
        flags_told(shard.contents(), alive) && n == #[trigger] total_live(alive)
}

/// Flags beyond the slots do not matter.
proof fn lemma_pruned_agree(
    slots: Seq<(InternKey, Seq<WeakPayload>)>,
    a: Seq<Seq<bool>>,
    b: Seq<Seq<bool>>,
)
    requires
        slots.len() <= a.len(),
        slots.len() <= b.len(),
        forall|i: int| 0 <= i < slots.len() ==> #[trigger] a[i] == b[i],
    ensures
        pruned(slots, a) == pruned(slots, b),
    decreases slots.len(),
{
    if slots.len() > 0 {
        lemma_pruned_agree(slots.drop_last(), a, b);
        assert(a[slots.len() - 1] == b[slots.len() - 1]);
    }
}

/// No more lead to a payload than there are.
proof fn lemma_live_bound(alive: Seq<bool>)
    ensures
        live(alive) <= alive.len(),
    decreases alive.len(),
{
    if alive.len() > 0 {
        lemma_live_bound(alive.drop_last());
    }
}

/// How many handles lead to a payload.
pub fn count_alive(alive: &Vec<bool>) -> (n: usize)
    ensures
        n == live(alive@),
{
    let mut n: usize = 0;
    let mut i: usize = 0;
    assert(alive@.take(0) =~= Seq::empty());
    while i < alive.len()
        invariant
            n <= i <= alive@.len(),
            n == live(alive@.take(i as int)),
        decreases alive@.len() - i,
    {
        assert(alive@.take(i + 1).drop_last() =~= alive@.take(i as int));
        if alive[i] {
            n += 1;
        }
        i += 1;
    }
    assert(alive@.take(i as int) =~= alive@);
    n
}

/// How many handles slots hold.
pub open spec fn handle_count(slots: Seq<Slot>) -> nat
    decreases slots.len(),
{
    if slots.len() == 0 {
        0
    } else {
        handle_count(slots.drop_last()) + slots.last().bucket@.len()
    }
}

/// A beginning holds no more handles than the whole.
proof fn lemma_handle_count(slots: Seq<Slot>, i: int)
    requires
        0 <= i <= slots.len(),
    ensures
        handle_count(slots.take(i)) <= handle_count(slots),
    decreases slots.len() - i,
{
    if i < slots.len() {
        lemma_handle_count(slots, i + 1);
        assert(slots.take(i + 1).drop_last() =~= slots.take(i));
    } else {
        assert(slots.take(i) =~= slots);
    }
}

/// Numbers on what a store knows.
#[derive(Debug, Clone, Copy, PartialEq, Eq)]
pub struct SharedChunkStoreStats {
    pub cache_keys: usize,
    pub weak_entries: usize,
    pub live_payloads: usize,
    pub evictions: u64,
    pub uncached_collision_payloads: u64,
}

impl SharedChunkStoreStats {
    /// Whether the numbers of two can be summed.
    pub open spec fn can_sum(self, other: Self) -> bool {
        &&& self.cache_keys + other.cache_keys <= usize::MAX
        &&& self.weak_entries + other.weak_entries <= usize::MAX
        &&& self.live_payloads + other.live_payloads <= usize::MAX
    }

    /// The numbers of two together.
    pub fn plus(self, other: Self) -> (sum: Self)
        requires
            self.can_sum(other),
        ensures
            sum == (SharedChunkStoreStats {
                cache_keys: (self.cache_keys + other.cache_keys) as usize,
                weak_entries: (self.weak_entries + other.weak_entries) as usize,
                live_payloads: (self.live_payloads + other.live_payloads) as usize,
                evictions: self.evictions.wrapping_add(other.evictions),
                uncached_collision_payloads: self.uncached_collision_payloads.wrapping_add(
                    other.uncached_collision_payloads,
                ),
            }),
    {
        SharedChunkStoreStats {
            cache_keys: self.cache_keys + other.cache_keys,
            weak_entries: self.weak_entries + other.weak_entries,
            live_payloads: self.live_payloads + other.live_payloads,
            evictions: self.evictions.wrapping_add(other.evictions),
            uncached_collision_payloads: self.uncached_collision_payloads.wrapping_add(
                other.uncached_collision_payloads,
            ),
        }
    }
}

/// The shard that a key belongs to, of `shards` of them: its numbers mixed bit
/// by bit, each turned by another amount.
pub open spec fn shard_of(key: KeyModel, shards: nat) -> nat {
    let x = (key.x as u32) as u64;
    let z = (key.z as u32) as u64;
    let g = key.scope.generation;
    let mixed = key.fingerprint ^ (x << 17) ^ ((z << 37) | (z >> 27)) ^ ((g << 7) | (g >> 57))
        ^ (key.scope.port as u64);
    (mixed as usize) as nat % shards
}

/// The shard that a key belongs to.
pub fn shard_index(key: &InternKey, shards: usize) -> (i: usize)
    requires
        shards > 0,
    ensures
        i == shard_of(key@, shards as nat),
        i < shards,
{
    let x: u64 = key.x as u32 as u64;
    let z: u64 = key.z as u32 as u64;
    let g: u64 = key.scope.generation;
    let mixed: u64 = key.fingerprint ^ (x << 17) ^ ((z << 37) | (z >> 27)) ^ ((g << 7) | (g >> 57))
        ^ key.scope.server.port as u64;
    #[verifier::truncate]
    let mixed: usize = mixed as usize;
    mixed % shards
}

/// Sharded, bounded interning table. It never owns a chunk.
pub struct SharedChunkStore {
    pub shards: Vec<StoreShard>,
}

impl SharedChunkStore {
    /// There is a shard, and every shard is valid.
    pub open spec fn valid(self) -> bool {
        &&& self.shards@.len() > 0
        &&& forall|i: int| 0 <= i < self.shards@.len() ==> (#[trigger] self.shards@[i]).valid()
    }
}

/// The key of a snapshot in a world.
pub open spec fn key_of(scope: WorldScope, snapshot: SnapshotModel, fingerprint: u64) -> KeyModel {
    KeyModel { scope: scope@, x: snapshot.x, z: snapshot.z, fingerprint }
}

/// What a lookup does to a store: only the shard of the key is touched.
pub open spec fn store_interned(
    before: SharedChunkStore,
    scope: WorldScope,
    snapshot: SnapshotModel,
    fingerprint: u64,
    after: SharedChunkStore,
    handed: Arc<ChunkSnapshot>,
) -> bool {
    let key = key_of(scope, snapshot, fingerprint);
    let at = shard_of(key, before.shards@.len()) as int;
    &&& after.shards@.len() == before.shards@.len()
    &&& forall|i: int|
        0 <= i < before.shards@.len() && i != at ==> (#[trigger] after.shards@[i])
            == before.shards@[i]
    &&& interned(before.shards@[at], key, snapshot, after.shards@[at], handed)
}

impl SharedChunkStore {
    /// A store with the usual bounds.
    pub fn new() -> (s: Self)
        ensures
            s.valid(),
            s.shards@.len() == DEFAULT_SHARD_COUNT,
            forall|i: int|
                0 <= i < s.shards@.len() ==> (#[trigger] s.shards@[i]).slots@.len() == 0
                    && s.shards@[i].max_keys == DEFAULT_KEYS_PER_SHARD && s.shards@[i].max_collisions
                    == DEFAULT_COLLISIONS_PER_KEY,
    {
        SharedChunkStore::with_limits(
            DEFAULT_SHARD_COUNT,
            DEFAULT_KEYS_PER_SHARD,
            DEFAULT_COLLISIONS_PER_KEY,
        )
    }

    /// A store with these bounds.
    pub fn with_limits(shards: usize, keys_per_shard: usize, collisions_per_key: usize) -> (s: Self)
        requires
            shards > 0,
            keys_per_shard > 0,
            collisions_per_key > 0,
        ensures
            s.valid(),
            s.shards@.len() == shards,
            forall|i: int|
                0 <= i < s.shards@.len() ==> (#[trigger] s.shards@[i]).slots@.len() == 0
                    && s.shards@[i].max_keys == keys_per_shard && s.shards@[i].max_collisions
                    == collisions_per_key,
    {
        let mut all: Vec<StoreShard> = Vec::new();
        while all.len() < shards
            invariant
                keys_per_shard > 0,
                collisions_per_key > 0,
                all@.len() <= shards,
                forall|i: int|
                    0 <= i < all@.len() ==> (#[trigger] all@[i]).valid() && all@[i].slots@.len() == 0
                        && all@[i].max_keys == keys_per_shard && all@[i].max_collisions
                        == collisions_per_key,
            decreases shards - all@.len(),
        {
            all.push(StoreShard::new(keys_per_shard, collisions_per_key));
        }
        SharedChunkStore { shards: all }
    }

    /// Hands out the payload that stands for this snapshot in this world.
    pub fn intern(&mut self, scope: &WorldScope, snapshot: ChunkSnapshot) -> (res: Result<
        Arc<ChunkSnapshot>,
        MineRiderError,
    >)
        requires
            old(self).valid(),
        ensures
            final(self).valid(),
            match res {
                Ok(r) => writable(snapshot@) && store_interned(
                    *old(self),
                    *scope,
                    snapshot@,
                    fnv(FNV_OFFSET, snapshot_bytes(snapshot@)),
                    *final(self),
                    r,
                ),
                Err(e) => !writable(snapshot@) && *final(self) == *old(self) && e.is_protocol(
                    TAG_TOO_LONG@,
                ),
            },
    {
        match snapshot.fingerprint() {
            Ok(fingerprint) => Ok(self.intern_with_fingerprint(scope, snapshot, fingerprint)),
            Err(e) => Err(e),
        }
    }

    /// The same, under a fingerprint that is given. Only the shard of the key
    /// is touched.
    pub fn intern_with_fingerprint(
        &mut self,
        scope: &WorldScope,
        snapshot: ChunkSnapshot,
        fingerprint: u64,
    ) -> (r: Arc<ChunkSnapshot>)
        requires
            old(self).valid(),
        ensures
            final(self).valid(),
            store_interned(*old(self), *scope, snapshot@, fingerprint, *final(self), r),
    {
        let key = InternKey { scope: scope.copy(), x: snapshot.x, z: snapshot.z, fingerprint };
        let at: usize = shard_index(&key, self.shards.len());
        let ghost start = self.shards@;
        assert(start[at as int].valid());
        let r = self.shards[at].intern(key, snapshot);
        proof {
            assert forall|i: int| 0 <= i < self.shards@.len() implies (
            #[trigger] self.shards@[i]).valid() by {
                if i != at {
                    assert(self.shards@[i] == start[i]);
                }
            }
        }
        r
    }

    /// Forgets what nothing keeps alive.
    pub fn prune(&mut self)
        requires
            old(self).valid(),
        ensures
            final(self).valid(),
            final(self).shards@.len() == old(self).shards@.len(),
            forall|i: int|
                0 <= i < final(self).shards@.len() ==> shard_pruned(
                    old(self).shards@[i],
                    #[trigger] final(self).shards@[i],
                ),
    {
        let ghost start = self.shards@;
        let mut i: usize = 0;
        while i < self.shards.len()
            invariant
                i <= self.shards@.len(),
                start == old(self).shards@,
                self.shards@.len() == start.len(),
                self.valid(),
                forall|j: int|
                    0 <= j < i ==> shard_pruned(start[j], #[trigger] self.shards@[j]),
                forall|j: int| i <= j < start.len() ==> #[trigger] self.shards@[j] == start[j],
            decreases self.shards@.len() - i,
        {
            let ghost before = self.shards@;
            assert(before[i as int].valid());
            self.shards[i].prune();
            proof {
                assert forall|j: int| 0 <= j < self.shards@.len() implies (
                #[trigger] self.shards@[j]).valid() by {
                    if j != i {
                        assert(self.shards@[j] == before[j]);
                    }
                }
            }
            i += 1;
        }
    }
}

/// How many keys shards know.
pub open spec fn total_keys(shards: Seq<StoreShard>) -> nat
    decreases shards.len(),
{
    if shards.len() == 0 {
        0
    } else {
        total_keys(shards.drop_last()) + shards.last().slots@.len()
    }
}

/// How many handles shards hold.
pub open spec fn total_handles(shards: Seq<StoreShard>) -> nat
    decreases shards.len(),
{
    if shards.len() == 0 {
        0
    } else {
        total_handles(shards.drop_last()) + handle_count(shards.last().slots@)
    }
}

/// How many keys shards have pushed out, as a 64-bit count that wraps.
pub open spec fn total_evictions(shards: Seq<StoreShard>) -> u64
    decreases shards.len(),
{
    if shards.len() == 0 {
        0
    } else {
        total_evictions(shards.drop_last()).wrapping_add(shards.last().evictions)
    }
}

/// How many payloads found their bucket full, as a 64-bit count that wraps.
pub open spec fn total_uncached(shards: Seq<StoreShard>) -> u64
    decreases shards.len(),
{
    if shards.len() == 0 {
        0
    } else {
        total_uncached(shards.drop_last()).wrapping_add(shards.last().uncached_collision_payloads)
    }
}

/// A beginning holds no more than the whole.
proof fn lemma_totals(shards: Seq<StoreShard>, i: int)
    requires
        0 <= i <= shards.len(),
    ensures
        total_keys(shards.take(i)) <= total_keys(shards),
        total_handles(shards.take(i)) <= total_handles(shards),
    decreases shards.len() - i,
{
    if i < shards.len() {
        lemma_totals(shards, i + 1);
        assert(shards.take(i + 1).drop_last() =~= shards.take(i));
    } else {
        assert(shards.take(i) =~= shards);
    }
}

/// Whether upgrades told that this many handles of each shard are alive.
pub open spec fn alive_counts(shards: Seq<StoreShard>, alive: Seq<nat>) -> bool {
    &&& alive.len() == shards.len()
    &&& forall|i: int| 0 <= i < shards.len() ==> alive_in(#[trigger] shards[i], alive[i])
}

/// The sum of numbers.
pub open spec fn sum_of(numbers: Seq<nat>) -> nat
    decreases numbers.len(),
{
    if numbers.len() == 0 {
        0
    } else {
        sum_of(numbers.drop_last()) + numbers.last()
    }
}

impl SharedChunkStore {
    /// How much the store knows, and how much of it is still alive.
    pub fn stats(&self) -> (s: SharedChunkStoreStats)
        requires
            total_keys(self.shards@) <= usize::MAX,
            total_handles(self.shards@) <= usize::MAX,
        ensures
            s.cache_keys == total_keys(self.shards@),
            s.weak_entries == total_handles(self.shards@),
            exists|alive: Seq<nat>| #[trigger]
                alive_counts(self.shards@, alive) && s.live_payloads == sum_of(alive),
            s.live_payloads <= s.weak_entries,
            s.evictions == total_evictions(self.shards@),
            s.uncached_collision_payloads == total_uncached(self.shards@),
    {
        let mut sum = SharedChunkStoreStats {
            cache_keys: 0,
            weak_entries: 0,
            live_payloads: 0,
            evictions: 0,
            uncached_collision_payloads: 0,
        };
        let mut i: usize = 0;
        let ghost mut alive: Seq<nat> = Seq::empty();
        assert(self.shards@.take(0) =~= Seq::empty());
        while i < self.shards.len()
            invariant
                i <= self.shards@.len(),
                total_keys(self.shards@) <= usize::MAX,
                total_handles(self.shards@) <= usize::MAX,
                sum.cache_keys == total_keys(self.shards@.take(i as int)),
                sum.weak_entries == total_handles(self.shards@.take(i as int)),
                alive.len() == i,
                forall|k: int| 0 <= k < i ==> alive_in(#[trigger] self.shards@[k], alive[k]),
                sum.live_payloads == sum_of(alive),
                sum.live_payloads <= sum.weak_entries,
                sum.evictions == total_evictions(self.shards@.take(i as int)),
                sum.uncached_collision_payloads == total_uncached(self.shards@.take(i as int)),
            decreases self.shards@.len() - i,
        {
            proof {
                assert(self.shards@.take(i + 1).drop_last() =~= self.shards@.take(i as int));
                lemma_totals(self.shards@, i + 1);
            }
            let one = self.shards[i].stats();
            proof {
                let longer = alive.push(one.live_payloads as nat);
                assert(longer.drop_last() =~= alive);
                alive = longer;
            }
            sum = sum.plus(one);
            i += 1;
        }
        proof {
            assert(self.shards@.take(i as int) =~= self.shards@);
            assert(alive_counts(self.shards@, alive));
        }
        sum
    }
}

/// A payload that is alike and alive is found.
proof fn lemma_first_same(seen: Seq<Sighting>, i: int)
    requires
        0 <= i < seen.len(),
        seen[i] == Sighting::Same,
    ensures
        first_same(seen) is Some,
    decreases seen.len(),
{
    if i < seen.len() - 1 {
        lemma_first_same(seen.drop_last(), i);
    }
}

/// While one payload of a kind is alive, no second is kept: a lookup that meets
/// one that is alive and alike hands out what a handle gave, and adds no handle.
pub proof fn law_alike_payloads_are_kept_once(
    before: Seq<WeakPayload>,
    alive: Seq<bool>,
    room: nat,
    snapshot: SnapshotModel,
    after: Seq<WeakPayload>,
    handed: Arc<ChunkSnapshot>,
    i: int,
)
    requires
        payload_placed(before, alive, room, snapshot, after, handed),
        0 <= i < before.len() <= usize::MAX,
        alive[i],
        alike_snapshots(referent(before[i]), snapshot),
    ensures
        exists|k: int|
            0 <= k < before.len() && alive[k] && #[trigger] before[k].gave(Some(handed)),
        alike_snapshots(handed@, snapshot),
        after == kept(before, alive),
        after.len() <= before.len(),
{
    let seen = sightings(before, alive, snapshot);
    lemma_first_same(seen, i);
    lemma_first_is_same(seen);
    lemma_kept_len(before, alive);
    let k = first_same(seen)->0;
    assert(before[k as int].gave(Some(handed)) && seen[k as int] == Sighting::Same);
}

/// A snapshot that is published twice in one world is shared while it is alive:
/// the second time, what the handle on the first gives is handed out where it is
/// alive and alike, and the second itself where it is not. Either way it is like
/// what was asked for.
pub proof fn law_a_payload_is_shared_while_it_is_alive(
    before: StoreShard,
    key: KeyModel,
    first: SnapshotModel,
    between: StoreShard,
    a: Arc<ChunkSnapshot>,
    second: SnapshotModel,
    after: StoreShard,
    b: Arc<ChunkSnapshot>,
)
    requires
        !before.keys().contains(key),
        between.valid(),
        interned(before, key, first, between, a),
        interned(between, key, second, after, b),
    ensures
        a@ == first,
        b@ == second || alike_snapshots(b@, second),
        ({
            let handle = between.slots@.last().bucket@[0];
            &&& referent(handle) == first
            &&& (alike_snapshots(first, second) && handle.gave(Some(b)) && told(handle, true)) || (
            !alike_snapshots(first, second) && told(handle, true) && b@ == second) || (told(
                handle,
                false,
            ) && b@ == second)
        }),
{
    let last = between.slots@.len() - 1;
    let handle = between.slots@[last].bucket@[0];
    assert(between.keys()[last] == key);
    let (at, alive) = choose|at: int, alive: Seq<bool>|
        {
            &&& #[trigger] known_interned(between, at, alive, second, after, b)
            &&& between.slots@[at].key@ == key
        };
    assert(between.keys()[at] == key);
    assert(at == last);
    let seen = sightings(between.slots@[at].bucket@, alive, second);
    assert(told(handle, alive[0]));
    assert(seen.drop_last() =~= Seq::empty());
    assert(first_same(seen.drop_last()) is None);
}

/// The first payload that is alike is one that is alike.
proof fn lemma_first_is_same(seen: Seq<Sighting>)
    requires
        first_same(seen) is Some,
    ensures
        first_same(seen)->0 < seen.len(),
        seen[first_same(seen)->0 as int] == Sighting::Same,
    decreases seen.len(),
{
    if first_same(seen.drop_last()) is Some {
        lemma_first_is_same(seen.drop_last());
    }
}

/// Snapshots of different worlds have different keys, whatever they hold.
pub proof fn law_worlds_never_share_keys(
    a: WorldScope,
    b: WorldScope,
    x: SnapshotModel,
    y: SnapshotModel,
    f: u64,
    g: u64,
)
    requires
        a@ != b@,
    ensures
        key_of(a, x, f) != key_of(b, y, g),
{
}

} // verus!
