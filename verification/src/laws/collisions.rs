//! Moves and boxes: what a clipped move may do, and which blocks a box reaches.
use crate::float_bits::{
    ceil_of, double_halvings, double_significand, floor_of, is_double, rank_double,
};
use crate::minecraft::collision::{
    blocks_ahead, blocks_behind, clipped, clipped_by, distances_fit, law_clipped_moves_enter_no_box,
    law_clipping_only_shortens, steps_up, Aabb, Axis, BlockBox, Obstacle,
};
use crate::minecraft::geometry::Vec3;
use vstd::arithmetic::power2::{lemma_pow2_pos, pow2};
use vstd::prelude::*;

verus! {

/// Whether a box has numbers for coordinates.
pub open spec fn is_box(b: Aabb) -> bool {
    &&& is_double(b.min.x) && is_double(b.min.y) && is_double(b.min.z)
    &&& is_double(b.max.x) && is_double(b.max.y) && is_double(b.max.z)
}

/// Whether obstacles have numbers for coordinates and distances.
pub open spec fn are_boxes(obstacles: Seq<Obstacle>) -> bool {
    forall|i: int|
        0 <= i < obstacles.len() ==> is_box((#[trigger] obstacles[i]).shape) && is_double(
            obstacles[i].ahead,
        ) && is_double(obstacles[i].behind)
}

/// Numbers are ordered by their bits: among those without a sign by the bits
/// themselves, among those with one the other way round, and those with a sign
/// come first. The two zeros are one number.
pub proof fn law_bits_are_ordered(a: u64, b: u64)
    ensures
        a < 0x8000_0000_0000_0000 && b < 0x8000_0000_0000_0000 ==> (rank_double(a) < rank_double(b)
            <==> a < b),
        a >= 0x8000_0000_0000_0000 && b >= 0x8000_0000_0000_0000 ==> (rank_double(a) < rank_double(
            b,
        ) <==> a > b),
        a >= 0x8000_0000_0000_0000 && b < 0x8000_0000_0000_0000 ==> (rank_double(a) < rank_double(b)
            <==> !(a == 0x8000_0000_0000_0000 && b == 0)),
        rank_double(0) == 0 && rank_double(0x8000_0000_0000_0000) == 0,
        is_double(a) <==> !(0x7FF0_0000_0000_0000 < a < 0x8000_0000_0000_0000 || a
            > 0xFFF0_0000_0000_0000),
{
}

/// An obstacle that leaves every such move as it is might as well not be there.
proof fn lemma_without(aabb: Aabb, axis: Axis, movement: u64, obstacles: Seq<Obstacle>, i: int)
    requires
        0 <= i < obstacles.len(),
        clipped_by(
            aabb,
            axis,
            clipped(aabb, axis, movement, obstacles.take(i)),
            obstacles[i],
        ) == clipped(aabb, axis, movement, obstacles.take(i)),
    ensures
        clipped(aabb, axis, movement, obstacles) == clipped(
            aabb,
            axis,
            movement,
            obstacles.remove(i),
        ),
    decreases obstacles.len(),
{
    let last = obstacles.len() - 1;
    if i == last {
        assert(obstacles.drop_last() =~= obstacles.take(i));
        assert(obstacles.remove(i) =~= obstacles.take(i));
    } else {
        let short = obstacles.drop_last();
        assert(short.take(i) =~= obstacles.take(i));
        lemma_without(aabb, axis, movement, short, i);
        assert(obstacles.remove(i).drop_last() =~= short.remove(i));
    }
}

/// What is left of a move is the move, or the way to a box that stands in it.
proof fn lemma_left_is_some_distance(
    aabb: Aabb,
    axis: Axis,
    movement: u64,
    obstacles: Seq<Obstacle>,
) -> (k: int)
    ensures
        clipped(aabb, axis, movement, obstacles) != movement ==> 0 <= k < obstacles.len() && ((
        blocks_ahead(aabb, axis, obstacles[k]) && clipped(aabb, axis, movement, obstacles)
            == obstacles[k].ahead) || (blocks_behind(aabb, axis, obstacles[k]) && clipped(
            aabb,
            axis,
            movement,
            obstacles,
        ) == obstacles[k].behind)),
    decreases obstacles.len(),
{
    if obstacles.len() == 0 {
        0
    } else {
        let short = obstacles.drop_last();
        let k = lemma_left_is_some_distance(aabb, axis, movement, short);
        if clipped(aabb, axis, movement, obstacles) == clipped(aabb, axis, movement, short) {
            k
        } else {
            obstacles.len() - 1
        }
    }
}

/// The beginning of obstacles has distances that fit, too.
proof fn lemma_front_fits(aabb: Aabb, axis: Axis, obstacles: Seq<Obstacle>, i: int)
    requires
        distances_fit(aabb, axis, obstacles),
        0 <= i <= obstacles.len(),
    ensures
        distances_fit(aabb, axis, obstacles.take(i)),
{
    let front = obstacles.take(i);
    assert forall|k: int| 0 <= k < front.len() implies {
        &&& blocks_ahead(aabb, axis, #[trigger] front[k]) ==> is_double(front[k].ahead)
            && rank_double(front[k].ahead) >= 0
        &&& blocks_behind(aabb, axis, front[k]) ==> is_double(front[k].behind) && rank_double(
            front[k].behind,
        ) <= 0
    } by {
        assert(front[k] == obstacles[k]);
    }
}

/// Whether two boxes share room along y and along z.
pub open spec fn meet_across_x(a: Aabb, b: Aabb) -> bool {
    &&& rank_double(b.min.y) < rank_double(a.max.y)
    &&& rank_double(a.min.y) < rank_double(b.max.y)
    &&& rank_double(b.min.z) < rank_double(a.max.z)
    &&& rank_double(a.min.z) < rank_double(b.max.z)
}

/// A move along x is cut short exactly by the boxes that share room with what
/// moves along y and z and lie beyond its far side: it goes no further than the
/// way to any of them, is otherwise left alone, and boxes elsewhere make no
/// difference. The ways are those to boxes on that side, so none turns the move
/// round.
pub proof fn law_moves_along_x_end_at_boxes(
    a: Aabb,
    movement: u64,
    obstacles: Seq<Obstacle>,
    i: int,
)
    requires
        is_double(movement),
        is_box(a),
        are_boxes(obstacles),
        0 <= i < obstacles.len(),
        forall|k: int|
            0 <= k < obstacles.len() ==> {
                &&& rank_double(a.max.x) <= rank_double((#[trigger] obstacles[k]).shape.min.x)
                    ==> rank_double(obstacles[k].ahead) >= 0
                &&& rank_double(obstacles[k].shape.max.x) <= rank_double(a.min.x)
                    ==> rank_double(obstacles[k].behind) <= 0
            },
    ensures
        ({
            let left = clipped(a, Axis::X, movement, obstacles);
            let o = obstacles[i];
            let without = clipped(a, Axis::X, movement, obstacles.remove(i));
            let beyond = rank_double(a.max.x) <= rank_double(o.shape.min.x);
            let before = rank_double(o.shape.max.x) <= rank_double(a.min.x);
            &&& rank_double(movement) > 0 && meet_across_x(a, o.shape) && beyond
                ==> rank_double(left) <= rank_double(o.ahead)
            &&& rank_double(movement) < 0 && meet_across_x(a, o.shape) && before
                ==> rank_double(left) >= rank_double(o.behind)
            &&& !meet_across_x(a, o.shape) ==> left == without
            &&& rank_double(movement) > 0 && !beyond ==> left == without
            &&& rank_double(movement) < 0 && !before ==> left == without
            &&& rank_double(movement) == 0 ==> left == movement
            &&& rank_double(movement) > 0 ==> 0 <= rank_double(left) <= rank_double(movement)
            &&& rank_double(movement) < 0 ==> rank_double(movement) <= rank_double(left) <= 0
            &&& left == movement || exists|k: int|
                {
                    &&& 0 <= k < obstacles.len()
                    &&& meet_across_x(a, (#[trigger] obstacles[k]).shape)
                    &&& (left == obstacles[k].ahead && rank_double(a.max.x) <= rank_double(
                        obstacles[k].shape.min.x,
                    )) || (left == obstacles[k].behind && rank_double(obstacles[k].shape.max.x)
                        <= rank_double(a.min.x))
                }
        }),
{
    let axis = Axis::X;
    let o = obstacles[i];
    assert(distances_fit(a, axis, obstacles)) by {
        assert forall|k: int| 0 <= k < obstacles.len() implies {
            &&& blocks_ahead(a, axis, #[trigger] obstacles[k]) ==> is_double(obstacles[k].ahead)
                && rank_double(obstacles[k].ahead) >= 0
            &&& blocks_behind(a, axis, obstacles[k]) ==> is_double(obstacles[k].behind)
                && rank_double(obstacles[k].behind) <= 0
        } by {
            assert(is_box(obstacles[k].shape));
        }
    }
    law_clipping_only_shortens(a, axis, movement, obstacles);
    law_clipped_moves_enter_no_box(a, axis, movement, obstacles, i);
    lemma_front_fits(a, axis, obstacles, i);
    law_clipping_only_shortens(a, axis, movement, obstacles.take(i));
    let so_far = clipped(a, axis, movement, obstacles.take(i));
    if clipped_by(a, axis, so_far, o) == so_far {
        lemma_without(a, axis, movement, obstacles, i);
    }
    let k = lemma_left_is_some_distance(a, axis, movement, obstacles);
    if clipped(a, axis, movement, obstacles) != movement {
        assert(is_box(obstacles[k].shape));
        assert(meet_across_x(a, obstacles[k].shape));
    }
    if rank_double(movement) == 0 {
        lemma_rest_stays(a, axis, movement, obstacles);
    }
}

/// Whether two boxes share room along x and along z.
pub open spec fn meet_across_y(a: Aabb, b: Aabb) -> bool {
    &&& rank_double(b.min.x) < rank_double(a.max.x)
    &&& rank_double(a.min.x) < rank_double(b.max.x)
    &&& rank_double(b.min.z) < rank_double(a.max.z)
    &&& rank_double(a.min.z) < rank_double(b.max.z)
}

/// A move along y is cut short exactly by the boxes that share room with what
/// moves along x and z and lie beyond its far side: it goes no further than the
/// way to any of them, is otherwise left alone, and boxes elsewhere make no
/// difference. The ways are those to boxes on that side, so none turns the move
/// round.
pub proof fn law_moves_along_y_end_at_boxes(
    a: Aabb,
    movement: u64,
    obstacles: Seq<Obstacle>,
    i: int,
)
    requires
        is_double(movement),
        is_box(a),
        are_boxes(obstacles),
        0 <= i < obstacles.len(),
        forall|k: int|
            0 <= k < obstacles.len() ==> {
                &&& rank_double(a.max.y) <= rank_double((#[trigger] obstacles[k]).shape.min.y)
                    ==> rank_double(obstacles[k].ahead) >= 0
                &&& rank_double(obstacles[k].shape.max.y) <= rank_double(a.min.y)
                    ==> rank_double(obstacles[k].behind) <= 0
            },
    ensures
        ({
            let left = clipped(a, Axis::Y, movement, obstacles);
            let o = obstacles[i];
            let without = clipped(a, Axis::Y, movement, obstacles.remove(i));
            let beyond = rank_double(a.max.y) <= rank_double(o.shape.min.y);
            let before = rank_double(o.shape.max.y) <= rank_double(a.min.y);
            &&& rank_double(movement) > 0 && meet_across_y(a, o.shape) && beyond
                ==> rank_double(left) <= rank_double(o.ahead)
            &&& rank_double(movement) < 0 && meet_across_y(a, o.shape) && before
                ==> rank_double(left) >= rank_double(o.behind)
            &&& !meet_across_y(a, o.shape) ==> left == without
            &&& rank_double(movement) > 0 && !beyond ==> left == without
            &&& rank_double(movement) < 0 && !before ==> left == without
            &&& rank_double(movement) == 0 ==> left == movement
            &&& rank_double(movement) > 0 ==> 0 <= rank_double(left) <= rank_double(movement)
            &&& rank_double(movement) < 0 ==> rank_double(movement) <= rank_double(left) <= 0
            &&& left == movement || exists|k: int|
                {
                    &&& 0 <= k < obstacles.len()
                    &&& meet_across_y(a, (#[trigger] obstacles[k]).shape)
                    &&& (left == obstacles[k].ahead && rank_double(a.max.y) <= rank_double(
                        obstacles[k].shape.min.y,
                    )) || (left == obstacles[k].behind && rank_double(obstacles[k].shape.max.y)
                        <= rank_double(a.min.y))
                }
        }),
{
    let axis = Axis::Y;
    let o = obstacles[i];
    assert(distances_fit(a, axis, obstacles)) by {
        assert forall|k: int| 0 <= k < obstacles.len() implies {
            &&& blocks_ahead(a, axis, #[trigger] obstacles[k]) ==> is_double(obstacles[k].ahead)
                && rank_double(obstacles[k].ahead) >= 0
            &&& blocks_behind(a, axis, obstacles[k]) ==> is_double(obstacles[k].behind)
                && rank_double(obstacles[k].behind) <= 0
        } by {
            assert(is_box(obstacles[k].shape));
        }
    }
    law_clipping_only_shortens(a, axis, movement, obstacles);
    law_clipped_moves_enter_no_box(a, axis, movement, obstacles, i);
    lemma_front_fits(a, axis, obstacles, i);
    law_clipping_only_shortens(a, axis, movement, obstacles.take(i));
    let so_far = clipped(a, axis, movement, obstacles.take(i));
    if clipped_by(a, axis, so_far, o) == so_far {
        lemma_without(a, axis, movement, obstacles, i);
    }
    let k = lemma_left_is_some_distance(a, axis, movement, obstacles);
    if clipped(a, axis, movement, obstacles) != movement {
        assert(is_box(obstacles[k].shape));
        assert(meet_across_y(a, obstacles[k].shape));
    }
    if rank_double(movement) == 0 {
        lemma_rest_stays(a, axis, movement, obstacles);
    }
}

/// Whether two boxes share room along x and along y.
pub open spec fn meet_across_z(a: Aabb, b: Aabb) -> bool {
    &&& rank_double(b.min.x) < rank_double(a.max.x)
    &&& rank_double(a.min.x) < rank_double(b.max.x)
    &&& rank_double(b.min.y) < rank_double(a.max.y)
    &&& rank_double(a.min.y) < rank_double(b.max.y)
}

/// A move along z is cut short exactly by the boxes that share room with what
/// moves along x and y and lie beyond its far side: it goes no further than the
/// way to any of them, is otherwise left alone, and boxes elsewhere make no
/// difference. The ways are those to boxes on that side, so none turns the move
/// round.
pub proof fn law_moves_along_z_end_at_boxes(
    a: Aabb,
    movement: u64,
    obstacles: Seq<Obstacle>,
    i: int,
)
    requires
        is_double(movement),
        is_box(a),
        are_boxes(obstacles),
        0 <= i < obstacles.len(),
        forall|k: int|
            0 <= k < obstacles.len() ==> {
                &&& rank_double(a.max.z) <= rank_double((#[trigger] obstacles[k]).shape.min.z)
                    ==> rank_double(obstacles[k].ahead) >= 0
                &&& rank_double(obstacles[k].shape.max.z) <= rank_double(a.min.z)
                    ==> rank_double(obstacles[k].behind) <= 0
            },
    ensures
        ({
            let left = clipped(a, Axis::Z, movement, obstacles);
            let o = obstacles[i];
            let without = clipped(a, Axis::Z, movement, obstacles.remove(i));
            let beyond = rank_double(a.max.z) <= rank_double(o.shape.min.z);
            let before = rank_double(o.shape.max.z) <= rank_double(a.min.z);
            &&& rank_double(movement) > 0 && meet_across_z(a, o.shape) && beyond
                ==> rank_double(left) <= rank_double(o.ahead)
            &&& rank_double(movement) < 0 && meet_across_z(a, o.shape) && before
                ==> rank_double(left) >= rank_double(o.behind)
            &&& !meet_across_z(a, o.shape) ==> left == without
            &&& rank_double(movement) > 0 && !beyond ==> left == without
            &&& rank_double(movement) < 0 && !before ==> left == without
            &&& rank_double(movement) == 0 ==> left == movement
            &&& rank_double(movement) > 0 ==> 0 <= rank_double(left) <= rank_double(movement)
            &&& rank_double(movement) < 0 ==> rank_double(movement) <= rank_double(left) <= 0
            &&& left == movement || exists|k: int|
                {
                    &&& 0 <= k < obstacles.len()
                    &&& meet_across_z(a, (#[trigger] obstacles[k]).shape)
                    &&& (left == obstacles[k].ahead && rank_double(a.max.z) <= rank_double(
                        obstacles[k].shape.min.z,
                    )) || (left == obstacles[k].behind && rank_double(obstacles[k].shape.max.z)
                        <= rank_double(a.min.z))
                }
        }),
{
    let axis = Axis::Z;
    let o = obstacles[i];
    assert(distances_fit(a, axis, obstacles)) by {
        assert forall|k: int| 0 <= k < obstacles.len() implies {
            &&& blocks_ahead(a, axis, #[trigger] obstacles[k]) ==> is_double(obstacles[k].ahead)
                && rank_double(obstacles[k].ahead) >= 0
            &&& blocks_behind(a, axis, obstacles[k]) ==> is_double(obstacles[k].behind)
                && rank_double(obstacles[k].behind) <= 0
        } by {
            assert(is_box(obstacles[k].shape));
        }
    }
    law_clipping_only_shortens(a, axis, movement, obstacles);
    law_clipped_moves_enter_no_box(a, axis, movement, obstacles, i);
    lemma_front_fits(a, axis, obstacles, i);
    law_clipping_only_shortens(a, axis, movement, obstacles.take(i));
    let so_far = clipped(a, axis, movement, obstacles.take(i));
    if clipped_by(a, axis, so_far, o) == so_far {
        lemma_without(a, axis, movement, obstacles, i);
    }
    let k = lemma_left_is_some_distance(a, axis, movement, obstacles);
    if clipped(a, axis, movement, obstacles) != movement {
        assert(is_box(obstacles[k].shape));
        assert(meet_across_z(a, obstacles[k].shape));
    }
    if rank_double(movement) == 0 {
        lemma_rest_stays(a, axis, movement, obstacles);
    }
}

/// What does not move is not clipped.
proof fn lemma_rest_stays(aabb: Aabb, axis: Axis, movement: u64, obstacles: Seq<Obstacle>)
    requires
        rank_double(movement) == 0,
    ensures
        clipped(aabb, axis, movement, obstacles) == movement,
    decreases obstacles.len(),
{
    if obstacles.len() > 0 {
        lemma_rest_stays(aabb, axis, movement, obstacles.drop_last());
    }
}

/// Stepping up is tried exactly where a horizontal part of the move was cut short
/// and the entity stands on the ground, or came down on it in this very move.
pub proof fn law_steps_need_ground_and_a_wall(left: Vec3, asked: Vec3, on_ground: bool)
    requires
        is_double(left.x) && is_double(left.y) && is_double(left.z),
        is_double(asked.x) && is_double(asked.y) && is_double(asked.z),
    ensures
        steps_up(left, asked, on_ground) <==> (rank_double(left.x) != rank_double(asked.x)
            || rank_double(left.z) != rank_double(asked.z)) && (on_ground || (rank_double(asked.y)
            < 0 && rank_double(left.y) != rank_double(asked.y))),
{
}

/// Rounding gives the whole number next to a double: `floor_of` the last one that
/// is not above it, `ceil_of` the first that is not below it. Here the double is
/// its significand halved some times, with its sign, and the whole number fits.
pub proof fn law_rounding_brackets_the_number(bits: u64)
    requires
        is_double(bits),
        double_halvings(bits) > 0,
        i32::MIN < floor_of(bits) < i32::MAX,
        i32::MIN < ceil_of(bits) < i32::MAX,
    ensures
        ({
            let unit = pow2(double_halvings(bits) as nat) as int;
            let number = if bits >= 0x8000_0000_0000_0000 {
                -double_significand(bits)
            } else {
                double_significand(bits)
            };
            &&& floor_of(bits) * unit <= number < (floor_of(bits) + 1) * unit
            &&& (ceil_of(bits) - 1) * unit < number <= ceil_of(bits) * unit
        }),
{
    let unit = pow2(double_halvings(bits) as nat) as int;
    lemma_pow2_pos(double_halvings(bits) as nat);
    let m = double_significand(bits);
    let down = m / unit;
    let up = (m + unit - 1) / unit;
    assert(down * unit <= m < (down + 1) * unit) by (nonlinear_arith)
        requires
            down == m / unit,
            unit > 0,
    ;
    assert((up - 1) * unit < m <= up * unit) by (nonlinear_arith)
        requires
            up == (m + unit - 1) / unit,
            unit > 0,
    ;
    assert((-up) * unit <= -m < (-up + 1) * unit) by (nonlinear_arith)
        requires
            (up - 1) * unit < m <= up * unit,
    ;
    assert((-down - 1) * unit < -m <= (-down) * unit) by (nonlinear_arith)
        requires
            down * unit <= m < (down + 1) * unit,
    ;
}

/// A box reaches the blocks from the one that its low corner is in up to the one
/// before the first whole number at or past its high corner, axis by axis.
pub proof fn law_boxes_reach_their_blocks(a: Aabb)
    ensures
        a.blocks().min_x == floor_of(a.min.x),
        a.blocks().min_y == floor_of(a.min.y),
        a.blocks().min_z == floor_of(a.min.z),
        a.blocks().max_x == ceil_of(a.max.x),
        a.blocks().max_y == ceil_of(a.max.y),
        a.blocks().max_z == ceil_of(a.max.z),
{
}

/// The blocks of a box are all of its blocks, each once: layer by layer, in a layer
/// row by row along z, and in a row along x.
pub proof fn law_boxes_are_listed_in_order(b: BlockBox, x: int, y: int, z: int)
    requires
        b.min_x <= x < b.max_x,
        b.min_y <= y < b.max_y,
        b.min_z <= z < b.max_z,
    ensures
        ({
            let i = ((y - b.min_y) * (b.max_z - b.min_z) + (z - b.min_z)) * (b.max_x - b.min_x) + (x
                - b.min_x);
            0 <= i < b.volume() && b.cell(i) == (x, y, z)
        }),
        b.volume() == (b.max_y - b.min_y) * ((b.max_z - b.min_z) * (b.max_x - b.min_x)),
{
    let w = b.max_x - b.min_x;
    let d = b.max_z - b.min_z;
    let h = b.max_y - b.min_y;
    let (dx, dy, dz) = (x - b.min_x, y - b.min_y, z - b.min_z);
    let i = (dy * d + dz) * w + dx;
    let layer = d * w;
    let low = dz * w + dx;
    assert(0 <= low < layer) by (nonlinear_arith)
        requires
            0 <= dz < d,
            0 <= dx < w,
            low == dz * w + dx,
            layer == d * w,
    ;
    assert(i == dy * layer + low) by (nonlinear_arith)
        requires
            i == (dy * d + dz) * w + dx,
            layer == d * w,
            low == dz * w + dx,
    ;
    assert(0 <= i < h * layer) by (nonlinear_arith)
        requires
            i == dy * layer + low,
            0 <= low < layer,
            0 <= dy < h,
    ;
    assert(i / layer == dy && i % layer == low) by (nonlinear_arith)
        requires
            i == dy * layer + low,
            0 <= low < layer,
    ;
    assert(low / w == dz) by (nonlinear_arith)
        requires
            low == dz * w + dx,
            0 <= dx < w,
    ;
    assert(i % w == dx) by (nonlinear_arith)
        requires
            i == (dy * d + dz) * w + dx,
            0 <= dx < w,
    ;
}

} // verus!
