//! The world through its operations.
use crate::error::MineRiderError;
use crate::laws::blocks::{
    law_multi_block_changes_stay_in_their_section, law_the_last_record_decides,
};
use crate::laws::collisions::{
    are_boxes, is_box, law_moves_along_x_end_at_boxes, law_moves_along_y_end_at_boxes,
    law_moves_along_z_end_at_boxes, meet_across_x, meet_across_y, meet_across_z,
};
use crate::float_bits::{is_double, rank_double};
use crate::minecraft::collision::{clip_axis, Aabb, Axis, Obstacle};
use crate::minecraft::world::{
    chunk_of, law_set_block_leaves_the_rest, law_set_block_reads_back, PacketBlockChange,
    PacketMapChunk, PacketMultiBlockChange, PacketUnloadChunk, PalettedContainer, World,
};
use vstd::prelude::*;

verus! {

/// A block is read from its own place: the column of its x and z, the section of its
/// height, and there the entry of ly * 256 + lz * 16 + lx. Where the column is not
/// loaded there is none.
pub proof fn law_blocks_are_read_from_their_place(
    world: &World,
    x: i32,
    y: i32,
    z: i32,
    state: Option<u32>,
    cx: int,
    cz: int,
    s: int,
    lx: int,
    ly: int,
    lz: int,
)
    requires
        call_ensures(World::block_state, (world, x, y, z), state),
        world@.dimension.min_y as int % 16 == 0,
        0 <= lx < 16 && 0 <= ly < 16 && 0 <= lz < 16,
        x == 16 * cx + lx,
        z == 16 * cz + lz,
        y == world@.dimension.min_y + 16 * s + ly,
        0 <= s,
        16 * s + ly < world@.dimension.height,
    ensures
        !world@.chunks.contains_key((cx, cz)) ==> state is None,
        world@.chunks.contains_key((cx, cz)) && s >= world@.chunks[(cx, cz)].sections.len()
            ==> state is None,
        world@.chunks.contains_key((cx, cz)) && s < world@.chunks[(cx, cz)].sections.len()
            ==> state == world@.chunks[(cx, cz)].sections[s].block_states.value(
            (ly * 256 + lz * 16 + lx) as nat,
        ),
{
    let base = world@.dimension.min_y as int;
    assert(x as int / 16 == cx && x as int % 16 == lx);
    assert(z as int / 16 == cz && z as int % 16 == lz);
    assert((y - base) / 16 == s);
    assert(y as int % 16 == ly);
}

/// Above and below the dimension there are no blocks.
pub proof fn law_no_blocks_outside_the_dimension(
    world: &World,
    x: i32,
    y: i32,
    z: i32,
    state: Option<u32>,
)
    requires
        call_ensures(World::block_state, (world, x, y, z), state),
    ensures
        y < world@.dimension.min_y ==> state is None,
        y >= world@.dimension.min_y + world@.dimension.height ==> state is None,
{
}

/// A column is loaded under its own x and z, in place of what was there, and unloaded
/// again by them. No other column changes, and a column that cannot be read changes
/// none.
pub proof fn law_columns_come_and_go(
    a: &mut World,
    b: &mut World,
    load: &PacketMapChunk,
    unload: &PacketUnloadChunk,
    res: Result<(), MineRiderError>,
    x: int,
    z: int,
    there: bool,
    look: &World,
    lx: i32,
    lz: i32,
)
    requires
        call_ensures(World::insert_chunk, (a, load), res),
        call_ensures(World::unload_chunk, (b, unload), ()),
        call_ensures(World::has_chunk, (look, lx, lz), there),
    ensures
        res is Ok ==> final(a)@.chunks.contains_key((load.x as int, load.z as int)) && chunk_of(
            *load,
            (old(a)@.dimension.height / 16) as nat,
        ) == Ok::<_, Seq<char>>(final(a)@.chunks[(load.x as int, load.z as int)]),
        (x, z) != (load.x as int, load.z as int) ==> final(a)@.chunks.contains_key((x, z)) == old(
            a,
        )@.chunks.contains_key((x, z)) && (old(a)@.chunks.contains_key((x, z))
            ==> final(a)@.chunks[(x, z)] == old(a)@.chunks[(x, z)]),
        res is Err ==> final(a)@ == old(a)@,
        final(a)@.dimension == old(a)@.dimension,
        !final(b)@.chunks.contains_key((unload.chunk_x as int, unload.chunk_z as int)),
        (x, z) != (unload.chunk_x as int, unload.chunk_z as int)
            ==> final(b)@.chunks.contains_key((x, z)) == old(b)@.chunks.contains_key((x, z)) && (old(
            b,
        )@.chunks.contains_key((x, z)) ==> final(b)@.chunks[(x, z)] == old(b)@.chunks[(x, z)]),
        final(b)@.dimension == old(b)@.dimension,
        there <==> look@.chunks.contains_key((lx as int, lz as int)),
{
}

/// A block that is set reads back, within the height of the dimension, and every
/// other stays. What fails changes nothing.
pub proof fn law_set_blocks_read_back(
    a: &mut World,
    b: &mut World,
    at: (i32, i32, i32),
    state: u32,
    packet: &PacketBlockChange,
    set: Result<(), MineRiderError>,
    changed: Result<(), MineRiderError>,
    x: int,
    y: int,
    z: int,
)
    requires
        old(a)@.valid(),
        old(b)@.valid(),
        call_ensures(World::set_block_state, (a, at.0, at.1, at.2, state), set),
        call_ensures(World::apply_block_change, (b, packet), changed),
    ensures
        set is Err ==> final(a)@ == old(a)@,
        changed is Err ==> final(b)@ == old(b)@,
        set is Ok && (x, y, z) == (at.0 as int, at.1 as int, at.2 as int) && 0 <= y - old(
            a,
        )@.dimension.min_y < old(a)@.dimension.height ==> final(a)@.block(x, y, z) == Some(state),
        (x, y, z) != (at.0 as int, at.1 as int, at.2 as int) ==> final(a)@.block(x, y, z) == old(
            a,
        )@.block(x, y, z),
        changed is Ok && (x, y, z) == (
            packet.location.x as int,
            packet.location.y as int,
            packet.location.z as int,
        ) && 0 <= y - old(b)@.dimension.min_y < old(b)@.dimension.height ==> final(b)@.block(
            x,
            y,
            z,
        ) == Some(packet.kind as u32),
        (x, y, z) != (
            packet.location.x as int,
            packet.location.y as int,
            packet.location.z as int,
        ) ==> final(b)@.block(x, y, z) == old(b)@.block(x, y, z),
{
    if set is Ok {
        let (px, py, pz) = (at.0 as int, at.1 as int, at.2 as int);
        if (x, y, z) != (px, py, pz) {
            law_set_block_leaves_the_rest(old(a)@, px, py, pz, state, x, y, z);
        } else if 0 <= y - old(a)@.dimension.min_y < old(a)@.dimension.height {
            law_set_block_reads_back(old(a)@, px, py, pz, state);
        }
    }
    if changed is Ok {
        let l = packet.location;
        let (px, py, pz) = (l.x as int, l.y as int, l.z as int);
        if (x, y, z) != (px, py, pz) {
            law_set_block_leaves_the_rest(old(b)@, px, py, pz, packet.kind as u32, x, y, z);
        } else if 0 <= y - old(b)@.dimension.min_y < old(b)@.dimension.height {
            law_set_block_reads_back(old(b)@, px, py, pz, packet.kind as u32);
        }
    }
}

/// A change of several blocks sets, by its last record, the block at the record's
/// offset in the section, and touches no block outside the section.
pub proof fn law_changes_of_several_blocks_stay_in_their_section(
    w: &mut World,
    packet: &PacketMultiBlockChange,
    res: Result<(), MineRiderError>,
    state: u32,
    lx: int,
    ly: int,
    lz: int,
    x: int,
    y: int,
    z: int,
)
    requires
        old(w)@.valid(),
        call_ensures(World::apply_multi_block_change, (w, packet), res),
        0 <= lx < 16 && 0 <= ly < 16 && 0 <= lz < 16,
    ensures
        ({
            let at = packet.chunk_coordinates;
            &&& res is Ok && packet.records@.len() > 0 && packet.records@.last() == state * 4096 + lx
                * 256 + lz * 16 + ly && 0 <= 16 * at.y + ly - old(w)@.dimension.min_y < old(
                w,
            )@.dimension.height ==> final(w)@.block(
                16 * at.x + lx,
                16 * at.y + ly,
                16 * at.z + lz,
            ) == Some(state)
            &&& !(16 * at.x <= x < 16 * at.x + 16 && 16 * at.y <= y < 16 * at.y + 16 && 16 * at.z
                <= z < 16 * at.z + 16) ==> final(w)@.block(x, y, z) == old(w)@.block(x, y, z)
        }),
{
    let at = packet.chunk_coordinates;
    if res is Ok && packet.records@.len() > 0 && packet.records@.last() == state * 4096 + lx * 256
        + lz * 16 + ly && 0 <= 16 * at.y + ly - old(w)@.dimension.min_y < old(
        w,
    )@.dimension.height {
        law_the_last_record_decides(old(w)@, at, packet.records@, 0, state, lx, ly, lz);
    }
    if !(16 * at.x <= x < 16 * at.x + 16 && 16 * at.y <= y < 16 * at.y + 16 && 16 * at.z <= z < 16
        * at.z + 16) {
        law_multi_block_changes_stay_in_their_section(old(w)@, at, packet.records@, 0, x, y, z);
    }
}

/// Whether a box lies at or beyond the far side of another along an axis, and at or
/// before its near side.
pub open spec fn lies_beyond(a: Aabb, b: Aabb, axis: Axis) -> bool {
    match axis {
        Axis::X => rank_double(a.max.x) <= rank_double(b.min.x),
        Axis::Y => rank_double(a.max.y) <= rank_double(b.min.y),
        Axis::Z => rank_double(a.max.z) <= rank_double(b.min.z),
    }
}

/// Whether two boxes share room along both axes other than this one.
pub open spec fn meet_across(a: Aabb, b: Aabb, axis: Axis) -> bool {
    match axis {
        Axis::X => meet_across_x(a, b),
        Axis::Y => meet_across_y(a, b),
        Axis::Z => meet_across_z(a, b),
    }
}

/// A move along an axis goes no further than the distance to any box in its way: one
/// that shares room along both other axes and lies on the side the move goes to.
/// Boxes that share no room along one of the other axes leave the move as it is.
pub proof fn law_moves_end_at_boxes_in_their_way(
    a: &Aabb,
    axis: Axis,
    movement: u64,
    obstacles: &Vec<Obstacle>,
    left: u64,
    i: int,
)
    requires
        call_ensures(clip_axis, (a, axis, movement, obstacles), left),
        is_double(movement),
        is_box(*a),
        are_boxes(obstacles@),
        0 <= i < obstacles@.len(),
        forall|k: int|
            0 <= k < obstacles@.len() ==> {
                &&& lies_beyond(*a, (#[trigger] obstacles@[k]).shape, axis) ==> rank_double(
                    obstacles@[k].ahead,
                ) >= 0
                &&& lies_beyond(obstacles@[k].shape, *a, axis) ==> rank_double(
                    obstacles@[k].behind,
                ) <= 0
            },
    ensures
        ({
            let o = obstacles@[i];
            &&& rank_double(movement) > 0 && meet_across(*a, o.shape, axis) && lies_beyond(
                *a,
                o.shape,
                axis,
            ) ==> rank_double(left) <= rank_double(o.ahead)
            &&& rank_double(movement) < 0 && meet_across(*a, o.shape, axis) && lies_beyond(
                o.shape,
                *a,
                axis,
            ) ==> rank_double(left) >= rank_double(o.behind)
            &&& rank_double(movement) == 0 ==> left == movement
            &&& rank_double(movement) > 0 ==> 0 <= rank_double(left) <= rank_double(movement)
            &&& rank_double(movement) < 0 ==> rank_double(movement) <= rank_double(left) <= 0
            &&& left == movement || exists|k: int|
                {
                    &&& 0 <= k < obstacles@.len()
                    &&& meet_across(*a, (#[trigger] obstacles@[k]).shape, axis)
                    &&& (left == obstacles@[k].ahead && lies_beyond(*a, obstacles@[k].shape, axis))
                        || (left == obstacles@[k].behind && lies_beyond(
                        obstacles@[k].shape,
                        *a,
                        axis,
                    ))
                }
        }),
        (forall|k: int|
            0 <= k < obstacles@.len() ==> !meet_across(*a, (#[trigger] obstacles@[k]).shape, axis))
            ==> left == movement,
{
    match axis {
        Axis::X => law_moves_along_x_end_at_boxes(*a, movement, obstacles@, i),
        Axis::Y => law_moves_along_y_end_at_boxes(*a, movement, obstacles@, i),
        Axis::Z => law_moves_along_z_end_at_boxes(*a, movement, obstacles@, i),
    }
}

/// What a container gives out is what its data hold at the index.
pub proof fn law_containers_give_their_values(
    c: &PalettedContainer,
    index: usize,
    v: Option<u32>,
)
    requires
        call_ensures(PalettedContainer::get, (c, index), v),
    ensures
        v == c@.value(index as nat),
{
}

} // verus!
