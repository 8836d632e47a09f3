//! Snapshots of chunks and the store that shares them.
use crate::error::MineRiderError;
use crate::minecraft::configuration::DimensionType;
use crate::minecraft::fingerprint::{
    arrays_bytes, container_bytes, fnv, hash_byte_arrays, hash_i64s, law_hash_continues, le_bytes,
    Fnv64,
};
use crate::minecraft::nbt_wire::alike;
use crate::minecraft::shared_world::{
    alike_snapshots, alive_flags, count_alive, entity_bytes, first_same, handle_count, hash_light,
    keep_alive, kept, lemma_layers, light_bytes, live, masks_bytes, place_payload, pruned, referent,
    same_snapshot, section_bytes, shard_index, snapshot_bytes, total_evictions, total_handles,
    total_keys, BlockEntitySnapshot, ChunkLight, ChunkSnapshot, InternKey, Placement,
    ServerIdentity, SharedChunkStore, SharedChunkStoreStats, Sighting, StoreShard, WeakPayload,
    WorldScope,
};
use crate::minecraft::world::{chunk_of, PacketMapChunk, SectionModel};
use std::sync::Arc;
use vstd::prelude::*;

verus! {

/// The light of a chunk is that of its packet, each mask and each array in its place.
pub proof fn law_light_is_that_of_the_packet(packet: &PacketMapChunk, light: ChunkLight, i: int)
    requires
        call_ensures(ChunkLight::from_map_chunk, (packet,), light),
    ensures
        light.sky_mask@ == packet.sky_light_mask@,
        light.block_mask@ == packet.block_light_mask@,
        light.empty_sky_mask@ == packet.empty_sky_light_mask@,
        light.empty_block_mask@ == packet.empty_block_light_mask@,
        light.sky_arrays@.len() == packet.sky_light@.len(),
        light.block_arrays@.len() == packet.block_light@.len(),
        0 <= i < packet.sky_light@.len() ==> light.sky_arrays@[i]@ == packet.sky_light@[i]@,
        0 <= i < packet.block_light@.len() ==> light.block_arrays@[i]@ == packet.block_light@[i]@,
{
    let (m, n) = (light@, crate::minecraft::shared_world::light_of(*packet));
    assert(m.sky_arrays.len() == n.sky_arrays.len());
    assert(m.block_arrays.len() == n.block_arrays.len());
    if 0 <= i < packet.sky_light@.len() {
        assert(m.sky_arrays[i] == n.sky_arrays[i]);
    }
    if 0 <= i < packet.block_light@.len() {
        assert(m.block_arrays[i] == n.block_arrays[i]);
    }
}

/// A snapshot holds what its packet says: the place, the sections, the height maps and
/// the block entities, each with its own numbers.
pub proof fn law_snapshots_hold_their_packet(
    packet: &PacketMapChunk,
    sections: usize,
    res: Result<ChunkSnapshot, MineRiderError>,
    i: int,
)
    requires
        call_ensures(ChunkSnapshot::decode, (packet, sections), res),
    ensures
        res is Ok <==> chunk_of(*packet, sections as nat) is Ok,
        res matches Ok(s) ==> s.x == packet.x && s.z == packet.z && *s.heightmaps
            == packet.heightmaps && s@.sections == chunk_of(*packet, sections as nat)->Ok_0.sections
            && s.block_entities@.len() == packet.block_entities@.len(),
        res matches Ok(s) ==> 0 <= i < packet.block_entities@.len() ==> {
            let (from, to) = (packet.block_entities@[i], s.block_entities@[i]);
            &&& to.local_x == from.local_x
            &&& to.local_z == from.local_z
            &&& to.y == from.y
            &&& to.kind == from.kind
            &&& to.nbt == from.nbt_data
        },
{
}

/// Snapshots are alike where they have the same place, sections, light and block
/// entities, and their tags are alike.
pub proof fn law_alike_snapshots_hold_the_same(
    a: &ChunkSnapshot,
    b: &ChunkSnapshot,
    r: bool,
    i: int,
)
    requires
        call_ensures(same_snapshot, (a, b), r),
    ensures
        r ==> a.x == b.x && a.z == b.z && a@.sections == b@.sections && a@.light == b@.light
            && alike(*a.heightmaps, *b.heightmaps) && a.block_entities@.len()
            == b.block_entities@.len(),
        r && 0 <= i < a.block_entities@.len() ==> {
            let (x, y) = (a.block_entities@[i], b.block_entities@[i]);
            &&& x.local_x == y.local_x && x.local_z == y.local_z && x.y == y.y && x.kind == y.kind
            &&& x.nbt is Some == y.nbt is Some
            &&& x.nbt matches Some(t) ==> alike(t, y.nbt->0)
        },
        a.x == b.x && a.z == b.z && a@.sections == b@.sections && a@.light == b@.light && alike(
            *a.heightmaps,
            *b.heightmaps,
        ) && a.block_entities@.len() == 0 && b.block_entities@.len() == 0 ==> r,
{
    if r && 0 <= i < a.block_entities@.len() {
        assert(crate::minecraft::shared_world::alike_entities(
            a@.block_entities[i],
            b@.block_entities[i],
        ));
    }
}

/// A fingerprint is the hash of all that a snapshot holds, from its place on: x, then
/// z, each low byte first.
pub proof fn law_fingerprints_cover_the_place(s: &ChunkSnapshot, res: Result<u64, MineRiderError>)
    requires
        call_ensures(ChunkSnapshot::fingerprint, (s,), res),
    ensures
        res matches Ok(h) ==> h == fnv(0xcbf2_9ce4_8422_2325, snapshot_bytes(s@)),
        snapshot_bytes(s@).take(8) == seq![
            ((s.x as u32) % 256) as u8,
            ((s.x as u32) / 256 % 256) as u8,
            ((s.x as u32) / 0x1_0000 % 256) as u8,
            ((s.x as u32) / 0x100_0000 % 256) as u8,
            ((s.z as u32) % 256) as u8,
            ((s.z as u32) / 256 % 256) as u8,
            ((s.z as u32) / 0x1_0000 % 256) as u8,
            ((s.z as u32) / 0x100_0000 % 256) as u8,
        ],
{
    crate::laws::tags::law_low_bytes_come_first((s.x as u32) as nat);
    crate::laws::tags::law_low_bytes_come_first((s.z as u32) as nat);
    assert(snapshot_bytes(s@).take(8) =~= seq![
        ((s.x as u32) % 256) as u8,
        ((s.x as u32) / 256 % 256) as u8,
        ((s.x as u32) / 0x1_0000 % 256) as u8,
        ((s.x as u32) / 0x100_0000 % 256) as u8,
        ((s.z as u32) % 256) as u8,
        ((s.z as u32) / 256 % 256) as u8,
        ((s.z as u32) / 0x1_0000 % 256) as u8,
        ((s.z as u32) / 0x100_0000 % 256) as u8,
    ]);
}

/// Worlds are told apart by their server, by how often it was entered and by their
/// dimension.
pub proof fn law_worlds_are_told_apart(
    host: &str,
    port: u16,
    server: ServerIdentity,
    generation: u64,
    dimension: &DimensionType,
    scope: WorldScope,
    copy: WorldScope,
)
    requires
        call_ensures(ServerIdentity::new, (host, port), server),
        call_ensures(WorldScope::new, (server, generation, dimension), scope),
        call_ensures(WorldScope::copy, (&scope,), copy),
    ensures
        scope@.host == host@ && scope@.port == port && scope@.generation == generation,
        scope@.dimension == dimension.key@ && scope@.min_y == dimension.min_y && scope@.height
            == dimension.height,
        copy@ == scope@,
{
}

/// Which payload comes first that is alike.
proof fn lemma_first_same(seen: Seq<Sighting>)
    ensures
        match first_same(seen) {
            Some(i) => i < seen.len() && seen[i as int] == Sighting::Same && forall|k: int|
                0 <= k < i ==> #[trigger] seen[k] != Sighting::Same,
            None => forall|k: int| 0 <= k < seen.len() ==> #[trigger] seen[k] != Sighting::Same,
        },
    decreases seen.len(),
{
    if seen.len() > 0 {
        let front = seen.drop_last();
        lemma_first_same(front);
        assert forall|k: int| 0 <= k < front.len() implies #[trigger] seen[k] == front[k] by {}
        assert(seen[seen.len() - 1] == seen.last());
    }
}

/// The first payload that is alike is used again. Where none is, the new one is kept
/// while fewer are alive than there is room for, and handed out unkept otherwise.
pub proof fn law_the_first_alike_payload_is_used_again(
    seen: &Vec<Sighting>,
    room: usize,
    p: Placement,
    alive: nat,
)
    requires
        call_ensures(place_payload, (seen, room), p),
        alive == live(alive_flags(seen@)),
    ensures
        p matches Placement::Reuse(i) ==> i < seen@.len() && seen@[i as int] == Sighting::Same
            && forall|k: int| 0 <= k < i ==> #[trigger] seen@[k] != Sighting::Same,
        !(p is Reuse) ==> forall|k: int|
            0 <= k < seen@.len() ==> #[trigger] seen@[k] != Sighting::Same,
        p is Added ==> alive < room,
        p is Uncached ==> alive >= room,
{
    lemma_first_same(seen@);
    assert(seen@.len() == seen.len());
}

/// The living are counted one by one.
pub proof fn law_the_living_are_counted(alive: &Vec<bool>, n: usize, s: Seq<bool>, b: bool)
    requires
        call_ensures(count_alive, (alive,), n),
    ensures
        n == live(alive@),
        live(Seq::empty()) == 0,
        live(s.push(b)) == live(s) + (if b { 1nat } else { 0nat }),
        live(s) <= s.len(),
    decreases s.len(),
{
    assert(s.push(b).drop_last() =~= s);
    if s.len() > 0 {
        law_the_living_are_counted(alive, n, s.drop_last(), s.last());
        assert(s.drop_last().push(s.last()) =~= s);
    }
}

/// What leads nowhere is dropped and the rest stays in order.
pub proof fn law_the_living_are_kept_in_order(
    handles: &mut Vec<u64>,
    alive: &Vec<bool>,
    h: Seq<u64>,
    w: u64,
    flags: Seq<bool>,
    b: bool,
)
    requires
        call_ensures(keep_alive::<u64>, (handles, alive), ()),
        h.len() == flags.len(),
    ensures
        final(handles)@ == kept(old(handles)@, alive@),
        kept(Seq::<u64>::empty(), flags) == Seq::<u64>::empty(),
        kept(h.push(w), flags.push(b)) == (if b {
            kept(h, flags).push(w)
        } else {
            kept(h, flags)
        }),
{
    assert(h.push(w).drop_last() =~= h);
    lemma_kept_agree(h, flags, flags.push(b));
}

proof fn lemma_kept_agree(h: Seq<u64>, a: Seq<bool>, b: Seq<bool>)
    requires
        h.len() <= a.len(),
        h.len() <= b.len(),
        forall|i: int| 0 <= i < h.len() ==> a[i] == #[trigger] b[i],
    ensures
        kept(h, a) == kept(h, b),
    decreases h.len(),
{
    if h.len() > 0 {
        lemma_kept_agree(h.drop_last(), a, b);
    }
}

/// Under a key that is not known the snapshot itself is handed out, and the key comes
/// last with one reference to it; the oldest key leaves where the shard is full. Under
/// a known key what is handed out is alike, and no other key changes.
pub proof fn law_payloads_are_shared_under_their_key(
    shard: &mut StoreShard,
    key: InternKey,
    snapshot: ChunkSnapshot,
    r: Arc<ChunkSnapshot>,
    i: int,
)
    requires
        old(shard).valid(),
        call_ensures(StoreShard::intern, (shard, key, snapshot), r),
    ensures
        r@ == snapshot@ || alike_snapshots(r@, snapshot@),
        !old(shard).keys().contains(key@) ==> {
            &&& r@ == snapshot@
            &&& final(shard).slots@.last().key@ == key@
            &&& final(shard).slots@.last().bucket@.len() == 1
            &&& referent(final(shard).slots@.last().bucket@[0]) == snapshot@
            &&& old(shard).slots@.len() < old(shard).max_keys ==> final(shard).slots@.len() == old(
                shard,
            ).slots@.len() + 1 && final(shard).evictions == old(shard).evictions
            &&& old(shard).slots@.len() == old(shard).max_keys ==> final(shard).slots@.len() == old(
                shard,
            ).slots@.len()
        },
        old(shard).keys().contains(key@) ==> final(shard).slots@.len() == old(shard).slots@.len()
            && final(shard).evictions == old(shard).evictions,
        old(shard).keys().contains(key@) && 0 <= i < old(shard).slots@.len() && old(
            shard,
        ).slots@[i].key@ != key@ ==> final(shard).slots@[i] == old(shard).slots@[i],
        final(shard).max_keys == old(shard).max_keys,
        final(shard).max_collisions == old(shard).max_collisions,
{
    let before = *old(shard);
    let after = *final(shard);
    if before.keys().contains(key@) {
        let (at, alive) = choose|at: int, alive: Seq<bool>|
            {
                &&& #[trigger] crate::minecraft::shared_world::known_interned(
                    before,
                    at,
                    alive,
                    snapshot@,
                    after,
                    r,
                )
                &&& before.slots@[at].key@ == key@
            };
        assert(crate::minecraft::shared_world::known_interned(
            before,
            at,
            alive,
            snapshot@,
            after,
            r,
        ));
    } else {
        let front = after.slots@.drop_last();
        assert(front.len() == after.slots@.len() - 1);
    }
}

/// A store looks in one shard, and what it hands out holds what was asked for.
pub proof fn law_a_store_looks_in_one_shard(
    store: &mut SharedChunkStore,
    scope: &WorldScope,
    snapshot: ChunkSnapshot,
    fingerprint: u64,
    r: Arc<ChunkSnapshot>,
    i: int,
    j: int,
)
    requires
        old(store).valid(),
        call_ensures(
            SharedChunkStore::intern_with_fingerprint,
            (store, scope, snapshot, fingerprint),
            r,
        ),
    ensures
        final(store).shards@.len() == old(store).shards@.len(),
        0 <= i < j < old(store).shards@.len() ==> final(store).shards@[i] == old(store).shards@[i]
            || final(store).shards@[j] == old(store).shards@[j],
{
}

/// With all else nought, the shard of a key is the remainder of its fingerprint.
pub proof fn law_fingerprints_spread_over_the_shards(key: &InternKey, shards: usize, i: usize)
    requires
        call_ensures(shard_index, (key, shards), i),
        shards > 0,
        key.x == 0,
        key.z == 0,
        key.scope.generation == 0,
        key.scope.server.port == 0,
    ensures
        i == (key.fingerprint as usize) as nat % shards as nat,
{
    let f = key.fingerprint;
    assert(f ^ (0u64 << 17) ^ ((0u64 << 37) | (0u64 >> 27)) ^ ((0u64 << 7) | (0u64 >> 57)) ^ 0u64
        == f) by (bit_vector);
}

/// A store has sixteen shards of 4096 keys with eight payloads each, and starts empty.
pub proof fn law_stores_start_empty(
    usual: SharedChunkStore,
    shards: usize,
    keys: usize,
    collisions: usize,
    given: SharedChunkStore,
    i: int,
)
    requires
        call_ensures(SharedChunkStore::new, (), usual),
        call_ensures(SharedChunkStore::with_limits, (shards, keys, collisions), given),
    ensures
        usual.shards@.len() == 16,
        0 <= i < 16 ==> usual.shards@[i].slots@.len() == 0 && usual.shards@[i].max_keys == 4096
            && usual.shards@[i].max_collisions == 8,
        given.shards@.len() == shards,
        0 <= i < shards ==> given.shards@[i].slots@.len() == 0 && given.shards@[i].max_keys == keys
            && given.shards@[i].max_collisions == collisions,
{
}

/// Numbers of two stores are added, each to its own.
pub proof fn law_numbers_of_stores_are_added(
    a: SharedChunkStoreStats,
    b: SharedChunkStoreStats,
    sum: SharedChunkStoreStats,
)
    requires
        a.can_sum(b),
        call_ensures(SharedChunkStoreStats::plus, (a, b), sum),
    ensures
        sum.cache_keys == a.cache_keys + b.cache_keys,
        sum.weak_entries == a.weak_entries + b.weak_entries,
        sum.live_payloads == a.live_payloads + b.live_payloads,
        a.evictions + b.evictions <= u64::MAX ==> sum.evictions == a.evictions + b.evictions,
        a.uncached_collision_payloads + b.uncached_collision_payloads <= u64::MAX
            ==> sum.uncached_collision_payloads == a.uncached_collision_payloads
            + b.uncached_collision_payloads,
{
}

/// Light is hashed mask by mask and then array by array: sky before blocks, and the
/// empty masks after the others.
pub proof fn law_light_is_hashed_in_order(
    h: &mut Fnv64,
    light: &ChunkLight,
    a: &mut Fnv64,
    b: &mut Fnv64,
    c: &mut Fnv64,
    d: &mut Fnv64,
    e: &mut Fnv64,
    f: &mut Fnv64,
)
    requires
        call_ensures(hash_light, (h, light), ()),
        call_ensures(hash_i64s, (a, &light.sky_mask), ()),
        call_ensures(hash_i64s, (b, &light.block_mask), ()),
        call_ensures(hash_i64s, (c, &light.empty_sky_mask), ()),
        call_ensures(hash_i64s, (d, &light.empty_block_mask), ()),
        call_ensures(hash_byte_arrays, (e, &light.sky_arrays), ()),
        call_ensures(hash_byte_arrays, (f, &light.block_arrays), ()),
        old(a).0 == old(h).0,
        old(b).0 == final(a).0,
        old(c).0 == final(b).0,
        old(d).0 == final(c).0,
        old(e).0 == final(d).0,
        old(f).0 == final(e).0,
    ensures
        final(h).0 == final(f).0,
{
    let l = light@;
    let (s1, s2) = (masks_bytes(l.sky_mask), masks_bytes(l.block_mask));
    let (s3, s4) = (masks_bytes(l.empty_sky_mask), masks_bytes(l.empty_block_mask));
    let s5 = le_bytes(light.sky_arrays@.len(), 8) + arrays_bytes(light.sky_arrays@);
    let s6 = le_bytes(light.block_arrays@.len(), 8) + arrays_bytes(light.block_arrays@);
    lemma_layers(light.sky_arrays@);
    lemma_layers(light.block_arrays@);
    let start = old(h).0;
    law_hash_continues(start, s1, s2);
    law_hash_continues(start, s1 + s2, s3);
    law_hash_continues(start, s1 + s2 + s3, s4);
    law_hash_continues(start, s1 + s2 + s3 + s4, s5);
    law_hash_continues(start, s1 + s2 + s3 + s4 + s5, s6);
    assert(light_bytes(l) =~= s1 + s2 + s3 + s4 + s5 + s6);
}

/// The byte form of a section starts with its count of blocks, low byte first, and goes
/// on with the blocks before the biomes; that of a block entity starts with its place.
pub proof fn law_byte_forms_start_with_their_place(s: SectionModel, e: BlockEntitySnapshot)
    ensures
        section_bytes(s) == seq![
            (s.non_air_blocks % 256) as u8,
            (s.non_air_blocks / 256) as u8,
        ] + container_bytes(s.block_states) + container_bytes(s.biomes),
        entity_bytes(e).len() >= 9,
        entity_bytes(e)[0] == e.local_x,
        entity_bytes(e)[1] == e.local_z,
        entity_bytes(e)[2] == (e.y as u16) % 256,
        entity_bytes(e)[3] == (e.y as u16) / 256,
        entity_bytes(e)[4] == (e.kind as u32) % 256,
        entity_bytes(e)[8] == (if e.nbt is Some { 1int } else { 0 }),
        e.nbt is None ==> entity_bytes(e).len() == 9,
{
    crate::laws::tags::law_low_bytes_come_first(s.non_air_blocks as nat);
    crate::laws::tags::law_low_bytes_come_first((e.y as u16) as nat);
    crate::laws::tags::law_low_bytes_come_first((e.kind as u32) as nat);
}

/// Pruning forgets the references that lead nowhere and then the keys without any; it
/// evicts nothing and keeps the bounds.
pub proof fn law_pruning_forgets_what_is_gone(
    shard: &mut StoreShard,
    slots: Seq<(InternKey, Seq<WeakPayload>)>,
    flags: Seq<Seq<bool>>,
    slot: (InternKey, Seq<WeakPayload>),
    alive: Seq<bool>,
)
    requires
        call_ensures(StoreShard::prune, (shard,), ()),
        slots.len() == flags.len(),
    ensures
        final(shard).evictions == old(shard).evictions,
        final(shard).max_keys == old(shard).max_keys,
        final(shard).max_collisions == old(shard).max_collisions,
        exists|told: Seq<Seq<bool>>| final(shard).contents() == #[trigger] pruned(
            old(shard).contents(),
            told,
        ),
        pruned(slots.push(slot), flags.push(alive)) == (if kept(slot.1, alive).len() == 0 {
            pruned(slots, flags)
        } else {
            pruned(slots, flags).push((slot.0, kept(slot.1, alive)))
        }),
{
    assert(slots.push(slot).drop_last() =~= slots);
    lemma_pruned_front(slots, flags, flags.push(alive));
}

proof fn lemma_pruned_front(
    slots: Seq<(InternKey, Seq<WeakPayload>)>,
    a: Seq<Seq<bool>>,
    b: Seq<Seq<bool>>,
)
    requires
        slots.len() <= a.len(),
        slots.len() <= b.len(),
        forall|i: int| 0 <= i < slots.len() ==> a[i] == #[trigger] b[i],
    ensures
        pruned(slots, a) == pruned(slots, b),
    decreases slots.len(),
{
    if slots.len() > 0 {
        lemma_pruned_front(slots.drop_last(), a, b);
        assert(a[slots.len() - 1] == b[slots.len() - 1]);
    }
}

/// The numbers of a store are those of its shards together.
pub proof fn law_numbers_of_shards_are_added(
    store: &SharedChunkStore,
    stats: SharedChunkStoreStats,
    one: &StoreShard,
    own: SharedChunkStoreStats,
    shards: Seq<StoreShard>,
    more: StoreShard,
)
    requires
        call_ensures(SharedChunkStore::stats, (store,), stats),
        call_ensures(StoreShard::stats, (one,), own),
    ensures
        stats.cache_keys == total_keys(store.shards@),
        stats.weak_entries == total_handles(store.shards@),
        stats.live_payloads <= stats.weak_entries,
        stats.evictions == total_evictions(store.shards@),
        own.cache_keys == one.slots@.len(),
        own.weak_entries == handle_count(one.slots@),
        own.evictions == one.evictions,
        own.uncached_collision_payloads == one.uncached_collision_payloads,
        own.live_payloads <= own.weak_entries,
        total_keys(shards.push(more)) == total_keys(shards) + more.slots@.len(),
        total_handles(shards.push(more)) == total_handles(shards) + handle_count(more.slots@),
        total_evictions(shards.push(more)) == total_evictions(shards).wrapping_add(more.evictions),
        total_keys(Seq::empty()) == 0,
        total_handles(Seq::empty()) == 0,
{
    assert(shards.push(more).drop_last() =~= shards);
}

} // verus!
