//! How a move is cut short by the boxes of the world, one axis at a time.
//!
//! Coordinates are the bits of double-precision numbers. The float layer hands
//! over how far it is to each box; which boxes are in the way, and how much of
//! the move is left, is decided here.
use crate::float_bits::{
    ceil_double, ceil_of, differ, double_place, doubles_differ, floor_double, floor_of, is_double, is_negative_double, is_positive_double,
    negative_double, number, positive_double, rank_double,
};
use crate::minecraft::geometry::Vec3;
use vstd::prelude::*;

verus! {

/// Axis-aligned box in world or block-local coordinates.
#[derive(Debug, Clone, Copy, PartialEq)]
pub struct Aabb {
    pub min: Vec3,
    pub max: Vec3,
}

/// A box of blocks: from the low corner up to, and without, the high corner.
#[derive(Debug, Clone, Copy)]
pub struct BlockBox {
    pub min_x: i32,
    pub min_y: i32,
    pub min_z: i32,
    pub max_x: i32,
    pub max_y: i32,
    pub max_z: i32,
}

/// How far it is from one coordinate up to another.
pub open spec fn span(low: i32, high: i32) -> nat {
    if low < high {
        (high - low) as nat
    } else {
        0
    }
}

impl BlockBox {
    /// How many blocks the box holds.
    pub open spec fn volume(self) -> nat {
        span(self.min_y, self.max_y) * (span(self.min_z, self.max_z) * span(self.min_x, self.max_x))
    }

    /// The blocks of the box in order: layers, then rows, then along a row.
    pub open spec fn cell(self, i: int) -> (int, int, int) {
        let width = span(self.min_x, self.max_x) as int;
        let depth = span(self.min_z, self.max_z) as int;
        (
            self.min_x + i % width,
            self.min_y + i / (depth * width),
            self.min_z + i % (depth * width) / width,
        )
    }
}

/// An axis.
#[derive(Debug, Clone, Copy, PartialEq, Eq, Structural)]
pub enum Axis {
    X,
    Y,
    Z,
}

/// The part of a point along an axis.
pub open spec fn part(p: Vec3, axis: Axis) -> u64 {
    match axis {
        Axis::X => p.x,
        Axis::Y => p.y,
        Axis::Z => p.z,
    }
}

/// The part of a point along an axis.
fn part_of(p: &Vec3, axis: Axis) -> (bits: u64)
    ensures
        bits == part(*p, axis),
{
    match axis {
        Axis::X => p.x,
        Axis::Y => p.y,
        Axis::Z => p.z,
    }
}

/// Whether one number is below another.
pub open spec fn below(a: u64, b: u64) -> bool {
    is_double(a) && is_double(b) && rank_double(a) < rank_double(b)
}

/// Whether one number is below another or equal to it.
pub open spec fn at_most(a: u64, b: u64) -> bool {
    is_double(a) && is_double(b) && rank_double(a) <= rank_double(b)
}

fn is_below(a: u64, b: u64) -> (r: bool)
    ensures
        r == below(a, b),
{
    number(a) && number(b) && double_place(a) < double_place(b)
}

fn is_at_most(a: u64, b: u64) -> (r: bool)
    ensures
        r == at_most(a, b),
{
    number(a) && number(b) && double_place(a) <= double_place(b)
}

/// Whether two boxes share room along an axis; touching is not sharing.
pub open spec fn overlaps_along(a: Aabb, b: Aabb, axis: Axis) -> bool {
    below(part(b.min, axis), part(a.max, axis)) && below(part(a.min, axis), part(b.max, axis))
}

fn overlap_along(a: &Aabb, b: &Aabb, axis: Axis) -> (r: bool)
    ensures
        r == overlaps_along(*a, *b, axis),
{
    is_below(part_of(&b.min, axis), part_of(&a.max, axis)) && is_below(
        part_of(&a.min, axis),
        part_of(&b.max, axis),
    )
}

impl Aabb {
    /// The blocks that the box reaches into.
    pub open spec fn blocks(self) -> BlockBox {
        BlockBox {
            min_x: floor_of(self.min.x),
            min_y: floor_of(self.min.y),
            min_z: floor_of(self.min.z),
            max_x: ceil_of(self.max.x),
            max_y: ceil_of(self.max.y),
            max_z: ceil_of(self.max.z),
        }
    }

    /// The blocks that the box reaches into.
    pub fn block_box(&self) -> (b: BlockBox)
        ensures
            b == self.blocks(),
    {
        BlockBox {
            min_x: floor_double(self.min.x),
            min_y: floor_double(self.min.y),
            min_z: floor_double(self.min.z),
            max_x: ceil_double(self.max.x),
            max_y: ceil_double(self.max.y),
            max_z: ceil_double(self.max.z),
        }
    }

    /// Whether two boxes overlap seen from above.
    pub fn intersects_xz(&self, other: &Aabb) -> (r: bool)
        ensures
            r == crosses(*self, *other, Axis::Y),
    {
        overlap_along(self, other, Axis::X) && overlap_along(self, other, Axis::Z)
    }

    /// Whether two boxes overlap seen along x.
    pub fn intersects_yz(&self, other: &Aabb) -> (r: bool)
        ensures
            r == crosses(*self, *other, Axis::X),
    {
        overlap_along(self, other, Axis::Y) && overlap_along(self, other, Axis::Z)
    }

    /// Whether two boxes overlap seen along z.
    pub fn intersects_xy(&self, other: &Aabb) -> (r: bool)
        ensures
            r == crosses(*self, *other, Axis::Z),
    {
        overlap_along(self, other, Axis::X) && overlap_along(self, other, Axis::Y)
    }
}

/// Whether a box moving along an axis can run into another: they overlap along
/// both other axes.
pub open spec fn crosses(a: Aabb, b: Aabb, axis: Axis) -> bool {
    match axis {
        Axis::X => overlaps_along(a, b, Axis::Y) && overlaps_along(a, b, Axis::Z),
        Axis::Y => overlaps_along(a, b, Axis::X) && overlaps_along(a, b, Axis::Z),
        Axis::Z => overlaps_along(a, b, Axis::X) && overlaps_along(a, b, Axis::Y),
    }
}

/// A box of the world and how far it is along an axis: from the far side of what
/// moves up to the near side of the box, and from the near side down to the far
/// side, with its sign.
#[derive(Debug, Clone, Copy)]
pub struct Obstacle {
    pub shape: Aabb,
    pub ahead: u64,
    pub behind: u64,
}

/// Whether a box stands in the way of a move up the axis.
pub open spec fn blocks_ahead(aabb: Aabb, axis: Axis, o: Obstacle) -> bool {
    crosses(aabb, o.shape, axis) && at_most(part(aabb.max, axis), part(o.shape.min, axis))
}

/// Whether a box stands in the way of a move down the axis.
pub open spec fn blocks_behind(aabb: Aabb, axis: Axis, o: Obstacle) -> bool {
    crosses(aabb, o.shape, axis) && at_most(part(o.shape.max, axis), part(aabb.min, axis))
}

/// What one box leaves of a move.
pub open spec fn clipped_by(aabb: Aabb, axis: Axis, movement: u64, o: Obstacle) -> u64 {
    if is_positive_double(movement) && blocks_ahead(aabb, axis, o) && below(o.ahead, movement) {
        o.ahead
    } else if is_negative_double(movement) && blocks_behind(aabb, axis, o) && below(
        movement,
        o.behind,
    ) {
        o.behind
    } else {
        movement
    }
}

/// What boxes leave of a move, taken one after the other.
pub open spec fn clipped(aabb: Aabb, axis: Axis, movement: u64, obstacles: Seq<Obstacle>) -> u64
    decreases obstacles.len(),
{
    if obstacles.len() == 0 {
        movement
    } else {
        clipped_by(
            aabb,
            axis,
            clipped(aabb, axis, movement, obstacles.drop_last()),
            obstacles.last(),
        )
    }
}

/// Clips a move along an axis against boxes: it ends where it would enter one.
pub fn clip_axis(aabb: &Aabb, axis: Axis, movement: u64, obstacles: &Vec<Obstacle>) -> (left: u64)
    ensures
        left == clipped(*aabb, axis, movement, obstacles@),
{
    let mut left: u64 = movement;
    let mut i: usize = 0;
    assert(obstacles@.take(0) =~= Seq::empty());
    while i < obstacles.len()
        invariant
            i <= obstacles@.len(),
            left == clipped(*aabb, axis, movement, obstacles@.take(i as int)),
        decreases obstacles@.len() - i,
    {
        assert(obstacles@.take(i + 1).drop_last() =~= obstacles@.take(i as int));
        let o: &Obstacle = &obstacles[i];
        let crossing = match axis {
            Axis::X => aabb.intersects_yz(&o.shape),
            Axis::Y => aabb.intersects_xz(&o.shape),
            Axis::Z => aabb.intersects_xy(&o.shape),
        };
        if crossing {
            if positive_double(left) && is_at_most(
                part_of(&aabb.max, axis),
                part_of(&o.shape.min, axis),
            ) {
                if is_below(o.ahead, left) {
                    left = o.ahead;
                }
            } else if negative_double(left) && is_at_most(
                part_of(&o.shape.max, axis),
                part_of(&aabb.min, axis),
            ) {
                if is_below(left, o.behind) {
                    left = o.behind;
                }
            }
        }
        i += 1;
    }
    assert(obstacles@.take(i as int) =~= obstacles@);
    left
}

/// Whether stepping up is tried: something is in the way, and the entity stands
/// on the ground or has just come down on it.
pub open spec fn steps_up(base: Vec3, requested: Vec3, on_ground: bool) -> bool {
    &&& doubles_differ(base.x, requested.x) || doubles_differ(base.z, requested.z)
    &&& on_ground || (doubles_differ(base.y, requested.y) && is_negative_double(requested.y))
}

/// Whether stepping up is tried, given what is left of a move.
pub fn may_step(base: &Vec3, requested: &Vec3, on_ground: bool) -> (r: bool)
    ensures
        r == steps_up(*base, *requested, on_ground),
{
    let blocked = differ(base.x, requested.x) || differ(base.z, requested.z);
    let landed = differ(base.y, requested.y) && negative_double(requested.y);
    blocked && (on_ground || landed)
}

/// Distances are what they should be: a box that stands in the way is not
/// nearer than nothing.
pub open spec fn distances_fit(aabb: Aabb, axis: Axis, obstacles: Seq<Obstacle>) -> bool {
    forall|i: int|
        0 <= i < obstacles.len() ==> {
            &&& blocks_ahead(aabb, axis, #[trigger] obstacles[i]) ==> is_double(obstacles[i].ahead)
                && rank_double(obstacles[i].ahead) >= 0
            &&& blocks_behind(aabb, axis, obstacles[i]) ==> is_double(obstacles[i].behind)
                && rank_double(obstacles[i].behind) <= 0
        }
}

/// Clipping only ever shortens a move: it never turns it round or makes it
/// longer.
pub proof fn law_clipping_only_shortens(
    aabb: Aabb,
    axis: Axis,
    movement: u64,
    obstacles: Seq<Obstacle>,
)
    requires
        is_double(movement),
        distances_fit(aabb, axis, obstacles),
    ensures
        ({
            let left = clipped(aabb, axis, movement, obstacles);
            &&& is_double(left)
            &&& rank_double(movement) >= 0 ==> 0 <= rank_double(left) <= rank_double(movement)
            &&& rank_double(movement) <= 0 ==> rank_double(movement) <= rank_double(left) <= 0
        }),
    decreases obstacles.len(),
{
    if obstacles.len() > 0 {
        let short = obstacles.drop_last();
        assert(distances_fit(aabb, axis, short)) by {
            assert forall|i: int| 0 <= i < short.len() implies {
                &&& blocks_ahead(aabb, axis, #[trigger] short[i]) ==> is_double(short[i].ahead)
                    && rank_double(short[i].ahead) >= 0
                &&& blocks_behind(aabb, axis, short[i]) ==> is_double(short[i].behind)
                    && rank_double(short[i].behind) <= 0
            } by {
                assert(short[i] == obstacles[i]);
            }
        }
        law_clipping_only_shortens(aabb, axis, movement, short);
        assert(obstacles[obstacles.len() - 1] == obstacles.last());
    }
}

/// A clipped move enters no box that stands in its way.
pub proof fn law_clipped_moves_enter_no_box(
    aabb: Aabb,
    axis: Axis,
    movement: u64,
    obstacles: Seq<Obstacle>,
    i: int,
)
    requires
        is_double(movement),
        distances_fit(aabb, axis, obstacles),
        0 <= i < obstacles.len(),
    ensures
        ({
            let left = clipped(aabb, axis, movement, obstacles);
            &&& rank_double(movement) >= 0 && blocks_ahead(aabb, axis, obstacles[i])
                ==> rank_double(left) <= rank_double(obstacles[i].ahead)
            &&& rank_double(movement) <= 0 && blocks_behind(aabb, axis, obstacles[i])
                ==> rank_double(left) >= rank_double(obstacles[i].behind)
        }),
    decreases obstacles.len(),
{
    let short = obstacles.drop_last();
    assert(distances_fit(aabb, axis, short)) by {
        assert forall|k: int| 0 <= k < short.len() implies {
            &&& blocks_ahead(aabb, axis, #[trigger] short[k]) ==> is_double(short[k].ahead)
                && rank_double(short[k].ahead) >= 0
            &&& blocks_behind(aabb, axis, short[k]) ==> is_double(short[k].behind)
                && rank_double(short[k].behind) <= 0
        } by {
            assert(short[k] == obstacles[k]);
        }
    }
    law_clipping_only_shortens(aabb, axis, movement, short);
    law_clipping_only_shortens(aabb, axis, movement, obstacles);
    assert(obstacles[obstacles.len() - 1] == obstacles.last());
    if i < short.len() {
        law_clipped_moves_enter_no_box(aabb, axis, movement, short, i);
        assert(short[i] == obstacles[i]);
        let before = clipped(aabb, axis, movement, short);
        law_clipping_only_shortens(aabb, axis, before, seq![obstacles.last()]);
    }
}

} // verus!
