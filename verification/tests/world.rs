use std::sync::Arc;

use minerider::error::MineRiderError;
use minerider::minecraft::configuration::DimensionType;
use minerider::minecraft::fingerprint::Fnv64;
use minerider::minecraft::hud::BlockPosition;
use minerider::minecraft::nbt::{Nbt, NbtList};
use minerider::minecraft::nbt_wire::{encode_tag, same_tag};
use minerider::minecraft::palette::{bits_of, pack_all, packed_value};
use minerider::minecraft::shared_world::{
    count_alive, keep_alive, place_payload, ChunkLight, ChunkSnapshot, Placement,
    ServerIdentity, SharedChunkStore, Sighting, WorldScope,
};
use minerider::minecraft::collision::Aabb;
use minerider::minecraft::geometry::Vec3;
use minerider::minecraft::shapes::{BlockTables, BoxRange, FrictionOverride};
use minerider::minecraft::world::{
    materialize_and_set, Chunk, CollisionFault, ChunkSection, PacketBlockChange, PacketMapChunk,
    PacketMultiBlockChange, PacketUnloadChunk, PalettedContainer, SectionPosition, World,
};
use minerider::protocol::buffer::{PacketReader, PacketWriter};

fn dimension_named(key: &str) -> DimensionType {
    DimensionType {
        key: key.into(),
        min_y: -64,
        height: 384,
        logical_height: 384,
        coordinate_scale: (1.0f64).to_bits(),
        ultrawarm: false,
        has_ceiling: false,
    }
}

fn dimension() -> DimensionType {
    dimension_named("minecraft:overworld")
}

fn single_section(block: u32, biome: u32) -> Vec<u8> {
    let mut out = PacketWriter::new();
    out.put_i16(if block == 0 { 0 } else { 4096 });
    out.put_u8(0);
    out.put_varint(block as i32);
    out.put_varint(0);
    out.put_u8(0);
    out.put_varint(biome as i32);
    out.put_varint(0);
    out.into_inner().to_vec()
}

fn packet(data: Vec<u8>) -> PacketMapChunk {
    PacketMapChunk {
        x: -1,
        z: 2,
        heightmaps: Nbt::Compound(Arc::new(vec![])),
        chunk_data: data,
        block_entities: vec![],
        sky_light_mask: vec![],
        block_light_mask: vec![],
        empty_sky_light_mask: vec![],
        empty_block_light_mask: vec![],
        sky_light: vec![],
        block_light: vec![],
    }
}

#[test]
fn decodes_dimension_number_of_single_value_sections() {
    let mut data = Vec::new();
    for section in 0..24 {
        data.extend(single_section(section, 1));
    }
    let chunk = Chunk::decode(&packet(data), 24).unwrap();
    assert_eq!(chunk.sections.len(), 24);
    assert_eq!(chunk.sections[0].block_states.get(4095), Some(0));
    assert_eq!(chunk.sections[23].block_states.get(0), Some(23));
}

#[test]
fn rejects_trailing_section_data() {
    let mut data = single_section(0, 0);
    data.push(1);
    assert!(Chunk::decode(&packet(data), 1).is_err());
}

#[test]
fn negative_coordinates_use_euclidean_chunk_math() {
    let mut data = Vec::new();
    for _ in 0..24 {
        data.extend(single_section(5, 0));
    }
    let mut world = World::new(dimension());
    world.insert_chunk(&packet(data)).unwrap();
    assert_eq!(world.block_state(-1, -64, 32), Some(5));
    assert_eq!(world.block_state(-16, -64, 47), Some(5));
}

#[test]
fn block_change_materializes_single_palette() {
    let mut data = Vec::new();
    for _ in 0..24 {
        data.extend(single_section(0, 0));
    }
    let mut world = World::new(dimension());
    world.insert_chunk(&packet(data)).unwrap();
    world.set_block_state(-1, 64, 32, 42).unwrap();
    assert_eq!(world.block_state(-1, 64, 32), Some(42));
    assert_eq!(world.block_state(-2, 64, 32), Some(0));
}

fn text_of<T>(res: Result<T, MineRiderError>) -> String {
    match res {
        Err(MineRiderError::Protocol(text)) => text,
        Err(other) => panic!("expected a protocol error, got {other:?}"),
        Ok(_) => panic!("expected a protocol error"),
    }
}

fn container(build: impl FnOnce(&mut PacketWriter)) -> Result<PalettedContainer, MineRiderError> {
    let mut w = PacketWriter::new();
    build(&mut w);
    let bytes = w.to_vec();
    let mut r = PacketReader::new(&bytes);
    PalettedContainer::decode(&mut r, 64, 1, 3)
}

#[test]
fn containers_decode_in_every_form() {
    // Two bits each: 32 to a long.
    let c = container(|w| {
        w.put_u8(2);
        w.put_varint(3);
        for v in [10, 20, 30] {
            w.put_varint(v);
        }
        w.put_varint(2);
        w.put_u64(0b10_01_00);
        w.put_u64(0b11);
    })
    .unwrap();
    assert_eq!(c.get(0), Some(10));
    assert_eq!(c.get(1), Some(20));
    assert_eq!(c.get(2), Some(30));
    assert_eq!(c.get(32), None, "an index past the palette has no value");
    assert_eq!(c.get(64), None, "an index past the data has no value");
    // Five bits each: twelve to a long, four bits unused.
    let c = container(|w| {
        w.put_u8(5);
        w.put_varint(6);
        for i in 0..6u64 {
            w.put_u64(i << 5);
        }
    })
    .unwrap();
    assert!(matches!(c, PalettedContainer::Direct { bits: 5, .. }));
    assert_eq!(c.get(13), Some(1));
    assert_eq!(c.get(61), Some(5));
}

#[test]
fn malformed_containers_say_why() {
    assert_eq!(
        text_of(container(|w| {
            w.put_u8(0);
            w.put_varint(-4);
        })),
        "negative single palette value: -4"
    );
    assert_eq!(
        text_of(container(|w| {
            w.put_u8(0);
            w.put_varint(1);
            w.put_varint(2);
        })),
        "single-valued palette has 2 packed longs"
    );
    assert_eq!(
        text_of(container(|w| w.put_u8(33))),
        "paletted container uses unsupported 33 bits"
    );
    assert_eq!(
        text_of(container(|w| {
            w.put_u8(1);
            w.put_varint(3);
        })),
        "palette length 3 outside 1..=2 for 1 bits"
    );
    assert_eq!(
        text_of(container(|w| {
            w.put_u8(15);
            w.put_varint(3);
        })),
        "paletted container has 3 longs, expected 16"
    );
}

#[test]
fn malformed_chunks_say_why() {
    let mut w = PacketWriter::new();
    w.put_i16(4097);
    assert_eq!(
        text_of(Chunk::decode(&packet(w.to_vec()), 1)),
        "invalid non-air block count 4097"
    );
    let mut data = single_section(0, 0);
    data.extend([1, 2, 3]);
    assert_eq!(
        text_of(Chunk::decode(&packet(data), 1)),
        "3 trailing bytes after 1 chunk sections"
    );
}

#[test]
fn packed_values_are_read_back() {
    let values: Vec<u32> = (0..200).map(|i| (i * 37) % 1000).collect();
    let bits = bits_of(999);
    assert_eq!(bits, 10);
    let data = pack_all(&values, bits);
    assert_eq!(data.len(), 34, "six to a long");
    for (i, v) in values.iter().enumerate() {
        assert_eq!(packed_value(bits, &data, i), Some(*v));
    }
    assert_eq!(pack_all(&vec![1, 0, 3], 2), vec![0b11_00_01]);
}

#[test]
fn setting_a_value_keeps_the_others() {
    let mut c = PalettedContainer::Single(7);
    materialize_and_set(&mut c, 64, 5, u32::MAX).unwrap();
    assert!(matches!(c, PalettedContainer::Direct { bits: 32, .. }));
    for i in 0..64 {
        assert_eq!(c.get(i), Some(if i == 5 { u32::MAX } else { 7 }));
    }
    let mut c = PalettedContainer::Single(0);
    materialize_and_set(&mut c, 64, 5, 0).unwrap();
    assert!(matches!(c, PalettedContainer::Direct { bits: 1, .. }));
    assert_eq!(
        text_of(materialize_and_set(&mut c, 64, 64, 1)),
        "palette index 64 outside 64"
    );
    let mut short = PalettedContainer::Direct { bits: 4, data: vec![0; 2] };
    assert_eq!(
        text_of(materialize_and_set(&mut short, 64, 0, 1)),
        "invalid palette value at index 32"
    );
}

fn loaded_world() -> World {
    let mut data = Vec::new();
    for section in 0..24 {
        data.extend(single_section(section, 0));
    }
    let mut p = packet(data);
    p.x = 0;
    p.z = 0;
    let mut world = World::new(dimension());
    world.insert_chunk(&p).unwrap();
    world
}

#[test]
fn block_updates_are_held_to_what_is_loaded() {
    let mut world = loaded_world();
    let change = |x, y, z, kind| PacketBlockChange { location: BlockPosition { x, y, z }, kind };
    world.apply_block_change(&change(3, 70, 4, 9)).unwrap();
    assert_eq!(world.block_state(3, 70, 4), Some(9));
    assert_eq!(world.block_state(3, 71, 4), Some(8));
    assert_eq!(
        text_of(world.apply_block_change(&change(16, 70, 4, 9))),
        "block update for unloaded chunk at 16,4"
    );
    assert_eq!(
        text_of(world.apply_block_change(&change(3, 320, 4, 9))),
        "block update y 320 outside dimension"
    );
    assert_eq!(
        text_of(world.apply_block_change(&change(3, -65, 4, 9))),
        "block update y -65 outside dimension"
    );
    assert_eq!(world.block_state(3, 320, 4), None);
}

#[test]
fn several_blocks_change_up_to_the_first_failure() {
    let mut world = loaded_world();
    let at = SectionPosition { x: 0, y: 4, z: 0 };
    let record = |state: i32, x: i32, y: i32, z: i32| state << 12 | x << 8 | z << 4 | y;
    world
        .apply_multi_block_change(&PacketMultiBlockChange {
            chunk_coordinates: at,
            records: vec![record(77, 1, 2, 3), record(78, 15, 15, 15)],
        })
        .unwrap();
    assert_eq!(world.block_state(1, 66, 3), Some(77));
    assert_eq!(world.block_state(15, 79, 15), Some(78));
    let res = world.apply_multi_block_change(&PacketMultiBlockChange {
        chunk_coordinates: SectionPosition { x: 0, y: 4, z: 0 },
        records: vec![record(80, 0, 0, 0), -1, record(81, 2, 2, 2)],
    });
    assert_eq!(text_of(res), "negative multi-block record -1");
    assert_eq!(world.block_state(0, 64, 0), Some(80));
    assert_eq!(world.block_state(2, 66, 2), Some(8));
}

#[test]
fn columns_come_and_go() {
    let mut world = loaded_world();
    assert!(world.has_chunk(0, 0));
    world.unload_chunk(&PacketUnloadChunk { chunk_x: 0, chunk_z: 0 });
    assert!(!world.has_chunk(0, 0));
    assert_eq!(world.block_state(0, 64, 0), None);
}

fn box_of(min: [f64; 3], max: [f64; 3]) -> Aabb {
    let corner =
        |p: [f64; 3]| Vec3 { x: p[0].to_bits(), y: p[1].to_bits(), z: p[2].to_bits() };
    Aabb { min: corner(min), max: corner(max) }
}

fn cube_tables(states: usize) -> BlockTables {
    BlockTables {
        state_shapes: vec![0; states],
        shape_ranges: vec![BoxRange { start: 0, count: 1 }],
        box_count: 1,
        friction_overrides: vec![],
    }
}

#[test]
fn crossed_blocks_come_in_order() {
    let world = loaded_world();
    let tables = cube_tables(100);
    let mut out = Vec::new();
    let area = box_of([1.25, 15.0, 2.5], [3.0, 17.0 - 0.75, 4.0]);
    world.collision_boxes(&tables, &area, &mut out).unwrap();
    let cells: Vec<_> = out.iter().map(|b| (b.x, b.y, b.z, b.state)).collect();
    assert_eq!(
        cells,
        vec![
            (1, 15, 2, 4),
            (2, 15, 2, 4),
            (1, 15, 3, 4),
            (2, 15, 3, 4),
            (1, 16, 2, 5),
            (2, 16, 2, 5),
            (1, 16, 3, 5),
            (2, 16, 3, 5),
        ]
    );
    assert!(out.iter().all(|b| b.boxes == BoxRange { start: 0, count: 1 }));
    let mut out = Vec::new();
    let area = box_of([14.25, 0.0, 0.5], [18.0, 1.0 - 0.75, 1.0]);
    let fault = world.collision_boxes(&tables, &area, &mut out).unwrap_err();
    assert_eq!(
        text_of(Err::<(), _>(fault.error())),
        "collision query crosses unloaded block 16,0,0"
    );
    assert_eq!(out.len(), 2);
}

#[test]
fn a_state_without_a_shape_is_reported() {
    let world = loaded_world();
    let mut out = Vec::new();
    let area = box_of([1.25, 15.0, 2.5], [2.0, 17.0 - 0.75, 3.0]);
    let fault = world.collision_boxes(&cube_tables(5), &area, &mut out).unwrap_err();
    assert_eq!(fault, CollisionFault::UnknownState { state: 5 });
    assert_eq!(text_of(Err::<(), _>(fault.error())), "unknown block state id 5");
    assert_eq!(out.len(), 1);
}

fn scope(server: &str, generation: u64, dimension_key: &str) -> WorldScope {
    WorldScope::new(
        ServerIdentity::new(server, 25_565),
        generation,
        &dimension_named(dimension_key),
    )
}

fn snapshot(state: u32) -> ChunkSnapshot {
    ChunkSnapshot {
        x: 2,
        z: -3,
        sections: vec![Arc::new(ChunkSection {
            non_air_blocks: u16::from(state != 0),
            block_states: PalettedContainer::Single(state),
            biomes: PalettedContainer::Single(1),
        })],
        heightmaps: Arc::new(Nbt::Compound(Arc::new(Vec::new()))),
        block_entities: Arc::new(Vec::new()),
        light: Arc::new(ChunkLight::default()),
    }
}

#[test]
fn identical_snapshot_is_canonical_within_scope() {
    let mut store: SharedChunkStore = SharedChunkStore::new();
    let scope = scope("server-a", 0, "minecraft:overworld");
    let first = store.intern(&scope, snapshot(1)).unwrap();
    let second = store.intern(&scope, snapshot(1)).unwrap();
    assert!(Arc::ptr_eq(&first, &second));
    assert_eq!(store.stats().live_payloads, 1);
}

#[test]
fn content_and_scope_boundaries_never_alias() {
    let mut store: SharedChunkStore = SharedChunkStore::new();
    let base = scope("server-a", 0, "minecraft:overworld");
    let first = store.intern(&base, snapshot(1)).unwrap();
    let different_content = store.intern(&base, snapshot(2)).unwrap();
    let different_server = store
        .intern(&scope("server-b", 0, "minecraft:overworld"), snapshot(1))
        .unwrap();
    let different_dimension = store
        .intern(&scope("server-a", 0, "minecraft:the_nether"), snapshot(1))
        .unwrap();
    let different_generation = store
        .intern(&scope("server-a", 1, "minecraft:overworld"), snapshot(1))
        .unwrap();
    assert!(!Arc::ptr_eq(&first, &different_content));
    assert!(!Arc::ptr_eq(&first, &different_server));
    assert!(!Arc::ptr_eq(&first, &different_dimension));
    assert!(!Arc::ptr_eq(&first, &different_generation));
}

#[test]
fn forced_fingerprint_collision_still_checks_full_equality() {
    let mut store: SharedChunkStore = SharedChunkStore::with_limits(1, 8, 8);
    let scope = scope("server-a", 0, "minecraft:overworld");
    let first = store.intern_with_fingerprint(&scope, snapshot(1), 7);
    let second = store.intern_with_fingerprint(&scope, snapshot(2), 7);
    let first_again = store.intern_with_fingerprint(&scope, snapshot(1), 7);
    assert!(!Arc::ptr_eq(&first, &second));
    assert!(Arc::ptr_eq(&first, &first_again));
}

#[test]
fn weak_entries_do_not_keep_payloads_alive() {
    let mut store: SharedChunkStore = SharedChunkStore::new();
    let scope = scope("server-a", 0, "minecraft:overworld");
    let payload = store.intern(&scope, snapshot(1)).unwrap();
    assert_eq!(Arc::strong_count(&payload), 1);
    drop(payload);
    store.prune();
    assert_eq!(store.stats().live_payloads, 0);
    assert_eq!(store.stats().cache_keys, 0);
}

#[test]
fn key_and_collision_bounds_are_enforced() {
    let mut store: SharedChunkStore = SharedChunkStore::with_limits(1, 2, 2);
    let scope = scope("server-a", 0, "minecraft:overworld");
    let mut live = Vec::new();
    for state in 0..8 {
        let mut value = snapshot(state);
        value.x = state as i32;
        live.push(store.intern(&scope, value).unwrap());
    }
    assert_eq!(live.len(), 8);
    assert!(store.stats().cache_keys <= 2);
    assert!(store.stats().evictions >= 6);

    let first = store.intern_with_fingerprint(&scope, snapshot(100), 9);
    let second = store.intern_with_fingerprint(&scope, snapshot(101), 9);
    let third = store.intern_with_fingerprint(&scope, snapshot(102), 9);
    assert!(!Arc::ptr_eq(&first, &second));
    assert!(!Arc::ptr_eq(&second, &third));
    assert_eq!(store.stats().uncached_collision_payloads, 1);
}

#[test]
fn a_payload_is_placed_by_what_is_seen() {
    let (gone, other, same) = (Sighting::Gone, Sighting::Other, Sighting::Same);
    assert_eq!(place_payload(&vec![gone, other, same, same], 9), Placement::Reuse(2));
    assert_eq!(place_payload(&vec![gone, other], 2), Placement::Added);
    assert_eq!(place_payload(&vec![other, other], 2), Placement::Uncached);
    assert_eq!(place_payload(&vec![], 1), Placement::Added);
}

#[test]
fn hashes_follow_the_usual_constants() {
    let mut h = Fnv64::new();
    assert_eq!(Fnv64::new().finish(), 0xcbf2_9ce4_8422_2325);
    h.write(b"a");
    assert_eq!(h.finish(), 0xaf63_dc4c_8601_ec8c);
    let mut h = Fnv64::new();
    h.write(b"foobar");
    assert_eq!(h.finish(), 0x8594_4171_f739_67e8);
    let mut split = Fnv64::new();
    split.write(b"foo");
    split.write(b"bar");
    assert_eq!(split.finish(), 0x8594_4171_f739_67e8);
}

#[test]
fn fingerprints_tell_contents_apart() {
    let a = snapshot(1).fingerprint().unwrap();
    assert_eq!(a, snapshot(1).fingerprint().unwrap());
    assert_ne!(a, snapshot(2).fingerprint().unwrap());
    let mut other = snapshot(1);
    other.heightmaps = Arc::new(Nbt::String("x".repeat(70_000)));
    assert!(other.fingerprint().is_err());
}

#[test]
fn snapshots_keep_all_that_comes_with_a_chunk() {
    let mut p = packet(single_section(4, 2));
    p.sky_light_mask = vec![1, -2];
    p.block_light = vec![vec![7; 3], vec![]];
    let s = ChunkSnapshot::decode(&p, 1).unwrap();
    assert_eq!((s.x, s.z), (-1, 2));
    assert_eq!(s.sections[0].block_states.get(9), Some(4));
    assert_eq!(s.light.sky_mask, vec![1, -2]);
    assert_eq!(s.light.block_arrays, vec![vec![7; 3], vec![]]);
}

#[test]
fn tags_are_written_in_network_form() {
    let tag = Nbt::Compound(Arc::new(vec![
        ("a".to_string(), Nbt::Byte(-1)),
        (
            "l".to_string(),
            Nbt::List(Arc::new(NbtList { tag: 3, items: vec![Nbt::Int(258)] })),
        ),
    ]));
    assert_eq!(
        encode_tag(&tag).unwrap(),
        vec![
            10, 1, 0, 1, b'a', 0xFF, 9, 0, 1, b'l', 3, 0, 0, 0, 1, 0, 0, 1, 2, 0
        ]
    );
}

#[test]
fn tags_are_compared_as_numbers() {
    let zero = Nbt::Double((0.0f64).to_bits());
    let minus_zero = Nbt::Double((-0.0f64).to_bits());
    let nan = Nbt::Float(f32::NAN.to_bits());
    assert!(same_tag(&zero, &minus_zero));
    assert!(!same_tag(&nan, &nan));
    assert!(!same_tag(&Nbt::Int(1), &Nbt::Short(1)));
}

#[test]
fn block_friction_matches_vanilla_overrides() {
    let range = |first: u32, last: u32, friction: f32| FrictionOverride {
        first,
        last,
        friction: f64::from(friction).to_bits(),
    };
    let tables = BlockTables {
        friction_overrides: vec![
            range(5949, 5949, 0.98),
            range(11243, 11243, 0.8),
            range(11625, 11625, 0.98),
            range(13553, 13556, 0.98),
            range(13954, 13954, 0.989),
        ],
        ..cube_tables(1)
    };
    let block_friction = |state: u32| f64::from_bits(tables.block_friction(state));
    // Overrides come from f32 literals, so compare within f32 granularity.
    let approx = |got: f64, want: f64| (got - want).abs() < 1.0e-6;
    assert_eq!(block_friction(0), 0.6); // air
    assert_eq!(block_friction(1), 0.6); // stone
    assert!(approx(block_friction(5949), 0.98)); // ice
    assert!(approx(block_friction(11243), 0.8)); // slime block
    assert!(approx(block_friction(11625), 0.98)); // packed ice
    assert!(approx(block_friction(13554), 0.98)); // frosted ice (mid-range)
    assert!(approx(block_friction(13954), 0.989)); // blue ice
}

#[test]
fn dead_handles_leave_and_live_ones_keep_their_order() {
    let mut handles = vec!['a', 'b', 'c', 'd'];
    keep_alive(&mut handles, &vec![true, false, true, false]);
    assert_eq!(handles, vec!['a', 'c']);
    assert_eq!(count_alive(&vec![true, false, true]), 2);

    let mut store: SharedChunkStore = SharedChunkStore::with_limits(1, 8, 8);
    let scope = scope("server-a", 0, "minecraft:overworld");
    let first = store.intern_with_fingerprint(&scope, snapshot(1), 7);
    let second = store.intern_with_fingerprint(&scope, snapshot(2), 7);
    let third = store.intern_with_fingerprint(&scope, snapshot(3), 8);
    drop(first);
    drop(third);
    store.prune();
    let stats = store.stats();
    assert_eq!((stats.cache_keys, stats.weak_entries, stats.live_payloads), (1, 1, 1));
    let again = store.intern_with_fingerprint(&scope, snapshot(2), 7);
    assert!(Arc::ptr_eq(&second, &again));
}

#[test]
fn containers_of_any_number_of_entries_are_read() {
    // Two bits for each of 10000 entries: 313 longs of 32 values.
    let mut w = PacketWriter::new();
    w.put_u8(2);
    w.put_varint(1);
    w.put_varint(77);
    w.put_varint(313);
    for _ in 0..313 {
        w.put_u64(0);
    }
    let bytes = w.to_vec();
    let mut input = PacketReader::new(&bytes);
    let ahead = input.clone();
    let container = PalettedContainer::decode(&mut input, 10_000, 1, 8).unwrap();
    assert!(input.is_empty() && !ahead.is_empty());
    assert_eq!(container.get(9_999), Some(77));
}

#[test]
fn values_are_kept_in_the_fewest_bits() {
    let mut container = PalettedContainer::Single(5);
    materialize_and_set(&mut container, 5_000, 4_999, 8).unwrap();
    assert!(matches!(container, PalettedContainer::Direct { bits: 4, .. }));
    assert_eq!(container.get(4_998), Some(5));
    assert_eq!(container.get(4_999), Some(8));
    let mut zero = PalettedContainer::Single(0);
    materialize_and_set(&mut zero, 64, 0, 0).unwrap();
    assert!(matches!(zero, PalettedContainer::Direct { bits: 1, .. }));
    assert!(materialize_and_set(&mut zero, 64, 64, 0).is_err());
}
