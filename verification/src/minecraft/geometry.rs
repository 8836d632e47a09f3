//! Points, angles and flags as the wire and the float layer give them.
use crate::float_bits::{doubles_equal, same_double};
use crate::minecraft::palette::{bit_length, bits_of, lemma_bit_length, power_of_two};
use vstd::arithmetic::power2::{lemma2_to64, lemma_pow2_adds, lemma_pow2_unfold, pow2};
use vstd::prelude::*;
use vstd::std_specs::cmp::PartialEqSpecImpl;

verus! {

/// Three double-precision numbers, as their bits.
#[derive(Debug, Clone, Copy)]
pub struct Vec3 {
    pub x: u64,
    pub y: u64,
    pub z: u64,
}

impl PartialEq for Vec3 {
    fn eq(&self, other: &Self) -> (r: bool) {
        same_double(self.x, other.x)
            && same_double(self.y, other.y)
            && same_double(self.z, other.z)
    }
}

impl PartialEqSpecImpl for Vec3 {
    open spec fn obeys_eq_spec() -> bool {
        true
    }

    open spec fn eq_spec(&self, other: &Self) -> bool {
        &&& doubles_equal(self.x, other.x)
        &&& doubles_equal(self.y, other.y)
        &&& doubles_equal(self.z, other.z)
    }
}

impl Vec3 {
    /// Three zeros.
    pub open spec fn zero() -> Vec3 {
        Vec3 { x: 0, y: 0, z: 0 }
    }
}

impl Default for Vec3 {
    fn default() -> (v: Self)
        ensures
            v == Vec3::zero(),
    {
        Vec3 { x: 0, y: 0, z: 0 }
    }
}

/// Whether bit `n` is set.
pub open spec fn bit(raw: u32, n: u32) -> bool {
    (raw >> n) & 1 == 1
}

/// Testing a mask of one bit.
pub proof fn lemma_bits(raw: u32)
    ensures
        (raw & 0x01 != 0) == bit(raw, 0),
        (raw & 0x02 != 0) == bit(raw, 1),
        (raw & 0x04 != 0) == bit(raw, 2),
        (raw & 0x08 != 0) == bit(raw, 3),
        (raw & 0x10 != 0) == bit(raw, 4),
        (raw & 0x20 != 0) == bit(raw, 5),
        (raw & 0x40 != 0) == bit(raw, 6),
        (raw & 0x80 != 0) == bit(raw, 7),
{
    assert((raw & 0x01 != 0) == ((raw >> 0u32) & 1 == 1) && (raw & 0x02 != 0) == ((raw >> 1u32) & 1
        == 1) && (raw & 0x04 != 0) == ((raw >> 2u32) & 1 == 1) && (raw & 0x08 != 0) == ((raw
        >> 3u32) & 1 == 1) && (raw & 0x10 != 0) == ((raw >> 4u32) & 1 == 1) && (raw & 0x20 != 0)
        == ((raw >> 5u32) & 1 == 1) && (raw & 0x40 != 0) == ((raw >> 6u32) & 1 == 1) && (raw & 0x80
        != 0) == ((raw >> 7u32) & 1 == 1)) by (bit_vector);
}

/// The single-precision bits of `m` thirty-seconds, where `m` has at most
/// twenty-four bits: the exponent is that of the highest bit, and the bits
/// below it follow.
pub open spec fn thirty_seconds(m: nat, negative: bool) -> int {
    if m == 0 {
        0
    } else {
        let top = bit_length(m) - 1;
        (if negative {
            0x8000_0000int
        } else {
            0
        }) + (127 - 5 + top) * 0x80_0000 + (m * pow2((23 - top) as nat) - 0x80_0000)
    }
}

/// The degrees of an angle in steps of which 256 make a full turn, as
/// single-precision bits. A step is forty-five thirty-seconds of a degree, so
/// no angle is rounded.
pub open spec fn degrees(angle: i8) -> int {
    if angle < 0 {
        thirty_seconds((-angle * 45) as nat, true)
    } else {
        thirty_seconds((angle * 45) as nat, false)
    }
}

/// Where the highest bit of a value is.
pub proof fn lemma_top_bit(m: nat)
    requires
        m > 0,
    ensures
        bit_length(m) >= 1,
        pow2((bit_length(m) - 1) as nat) <= m < pow2(bit_length(m)),
    decreases m,
{
    lemma_bit_length(m);
    if m / 2 == 0 {
        assert(m == 1);
        assert(bit_length(0) == 0);
        lemma2_to64();
    } else {
        lemma_top_bit(m / 2);
        lemma_pow2_unfold((bit_length(m) - 1) as nat);
    }
}

/// Converts a protocol angle byte (256 steps per full turn) to degrees, as
/// single-precision bits.
pub fn angle_to_degrees(angle: i8) -> (bits: u32)
    ensures
        bits == degrees(angle),
{
    let negative = angle < 0;
    let m: u32 = if negative {
        (-(angle as i32) * 45) as u32
    } else {
        (angle as i32 * 45) as u32
    };
    if m == 0 {
        return 0;
    }
    let length: u8 = bits_of(m);
    proof {
        lemma_top_bit(m as nat);
        lemma2_to64();
        lemma_bit_length(m as nat);
        assert(m < pow2(13));
        assert(length <= 13);
    }
    let top: u8 = length - 1;
    let shift: u64 = power_of_two(23 - top);
    proof {
        let a = pow2(top as nat) as int;
        let b = pow2((23 - top) as nat) as int;
        lemma_pow2_adds(top as nat, (23 - top) as nat);
        lemma_pow2_unfold(length as nat);
        assert(a * b == 0x80_0000);
        assert(a <= m < 2 * a);
        let v = m as int;
        assert(a * b <= v * b < 2 * (a * b)) by (nonlinear_arith)
            requires
                a <= v < 2 * a,
                b > 0,
        ;
        assert(m * shift == v * b);
    }
    let fraction: u64 = m as u64 * shift - 0x80_0000;
    let exponent: u32 = (127 - 5 + top as u32) * 0x80_0000;
    if negative {
        0x8000_0000 + exponent + fraction as u32
    } else {
        exponent + fraction as u32
    }
}

} // verus!
