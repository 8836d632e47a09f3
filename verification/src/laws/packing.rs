//! Numbers packed into longs, and boxes.
use crate::float_bits::{ceil_of, floor_of, is_double, rank_double};
use crate::laws::collisions::{is_box, meet_across_x, meet_across_y, meet_across_z};
use crate::minecraft::collision::{may_step, Aabb, BlockBox};
use crate::minecraft::geometry::Vec3;
use crate::minecraft::palette::{
    all_fit, bits_of, law_packed_values_read_back, lemma_bit_length, longs_for, pack_all,
    packed_value, power_of_two,
};
use vstd::arithmetic::power2::pow2;
use vstd::prelude::*;

verus! {

/// The bits of a number are the fewest that hold it.
pub proof fn law_bits_are_the_fewest(v: u32, n: u8, fewer: nat)
    requires
        call_ensures(bits_of, (v,), n),
    ensures
        v < pow2(n as nat),
        fewer < n ==> v >= pow2(fewer),
        v == 0 <==> n == 0,
{
    lemma_bit_length(v as nat);
    if fewer < n && v < pow2(fewer) {
        assert(crate::minecraft::palette::bit_length(v as nat) <= fewer);
    }
    if n == 0 {
        vstd::arithmetic::power2::lemma2_to64();
    }
    if v == 0 {
        vstd::arithmetic::power2::lemma2_to64();
        assert(0 < pow2(0));
        assert(crate::minecraft::palette::bit_length(0) <= 0);
    }
}

/// A power of two is two times itself so often.
pub proof fn law_powers_of_two(n: u8, p: u64)
    requires
        call_ensures(power_of_two, (n,), p),
    ensures
        p == pow2(n as nat),
{
}

/// What was packed is read back, value by value, from as many longs as it takes: a
/// long holds as many values as fit whole.
pub proof fn law_packed_values_are_read_back(
    values: &Vec<u32>,
    bits: u8,
    data: Vec<u64>,
    index: usize,
    v: Option<u32>,
    longs: usize,
)
    requires
        1 <= bits <= 32,
        all_fit(values@, bits as nat),
        call_ensures(pack_all, (values, bits), data),
        call_ensures(packed_value, (bits, &data, index), v),
        call_ensures(longs_for, (values.len(), bits), longs),
    ensures
        index < values@.len() ==> v == Some(values@[index as int]),
        data@.len() == longs,
        longs * (64int / bits as int) >= values@.len(),
        longs > 0 ==> (longs - 1) * (64int / bits as int) < values@.len(),
{
    if index < values@.len() {
        law_packed_values_read_back(values@, bits as nat, index as int);
    }
    let per = 64int / bits as int;
    let n = values@.len() as int;
    assert(per >= 2) by (nonlinear_arith)
        requires
            per == 64int / bits as int,
            1 <= bits <= 32,
    ;
    assert(longs == (n + per - 1) / per);
    assert(longs * per >= n && (longs > 0 ==> (longs - 1) * per < n)) by (nonlinear_arith)
        requires
            longs == (n + per - 1) / per,
            per >= 2,
            n >= 0,
    ;
}

/// Boxes overlap as seen along an axis where they share room along both others.
pub proof fn law_boxes_overlap_along_both_axes(a: &Aabb, b: &Aabb, xz: bool, yz: bool, xy: bool)
    requires
        is_box(*a),
        is_box(*b),
        call_ensures(Aabb::intersects_xz, (a, b), xz),
        call_ensures(Aabb::intersects_yz, (a, b), yz),
        call_ensures(Aabb::intersects_xy, (a, b), xy),
    ensures
        xz <==> meet_across_y(*a, *b),
        yz <==> meet_across_x(*a, *b),
        xy <==> meet_across_z(*a, *b),
        xy <==> rank_double(a.min.x) < rank_double(b.max.x) && rank_double(b.min.x) < rank_double(
            a.max.x,
        ) && rank_double(a.min.y) < rank_double(b.max.y) && rank_double(b.min.y) < rank_double(
            a.max.y,
        ),
        xz <==> rank_double(a.min.x) < rank_double(b.max.x) && rank_double(b.min.x) < rank_double(
            a.max.x,
        ) && rank_double(a.min.z) < rank_double(b.max.z) && rank_double(b.min.z) < rank_double(
            a.max.z,
        ),
        yz <==> rank_double(a.min.y) < rank_double(b.max.y) && rank_double(b.min.y) < rank_double(
            a.max.y,
        ) && rank_double(a.min.z) < rank_double(b.max.z) && rank_double(b.min.z) < rank_double(
            a.max.z,
        ),
{
}

/// A box reaches the blocks from the floor of its low corner to the ceiling of its high
/// one, each axis by itself.
pub proof fn law_boxes_reach_blocks_by_axis(a: &Aabb, b: BlockBox)
    requires
        call_ensures(Aabb::block_box, (a,), b),
    ensures
        b.min_x == floor_of(a.min.x) && b.max_x == ceil_of(a.max.x),
        b.min_y == floor_of(a.min.y) && b.max_y == ceil_of(a.max.y),
        b.min_z == floor_of(a.min.z) && b.max_z == ceil_of(a.max.z),
{
}

/// Stepping up is tried where a move along x or z was cut short and the entity stands
/// on the ground or has just come down on it.
pub proof fn law_steps_are_tried_at_walls(
    base: &Vec3,
    requested: &Vec3,
    on_ground: bool,
    r: bool,
)
    requires
        call_ensures(may_step, (base, requested, on_ground), r),
        is_double(base.x) && is_double(base.y) && is_double(base.z),
        is_double(requested.x) && is_double(requested.y) && is_double(requested.z),
    ensures
        ({
            let walled = rank_double(base.x) != rank_double(requested.x) || rank_double(base.z)
                != rank_double(requested.z);
            let landed = rank_double(base.y) != rank_double(requested.y) && rank_double(
                requested.y,
            ) < 0;
            r <==> walled && (on_ground || landed)
        }),
{
}

} // verus!
