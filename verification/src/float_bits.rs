//! What the bits of a floating-point number say, without floating-point
//! arithmetic.
use crate::minecraft::palette::power_of_two;
use vstd::arithmetic::power2::{
    lemma2_to64, lemma2_to64_rest, lemma_pow2_pos, lemma_pow2_strictly_increases, pow2,
};
use vstd::prelude::*;
use vstd::std_specs::cmp::PartialEqSpecImpl;

verus! {

/// `m` halved `k` times, where every half is whole.
pub open spec fn halved(m: nat, k: nat) -> Option<nat>
    decreases k,
{
    if k == 0 {
        Some(m)
    } else if m % 2 != 0 {
        None
    } else {
        halved(m / 2, (k - 1) as nat)
    }
}

/// `m` doubled `k` times.
pub open spec fn doubled(m: nat, k: nat) -> nat
    decreases k,
{
    if k == 0 {
        m
    } else {
        doubled(2 * m, (k - 1) as nat)
    }
}

/// Doubling never makes a number smaller.
pub proof fn lemma_doubled_grows(m: nat, k: nat)
    ensures
        doubled(m, k) >= m,
    decreases k,
{
    if k > 0 {
        lemma_doubled_grows(2 * m, (k - 1) as nat);
    }
}

/// The whole number that single-precision bits denote, in absolute value, where
/// they denote one.
pub open spec fn whole_magnitude(bits: u32) -> Option<nat> {
    let magnitude = bits as nat % 0x8000_0000;
    let exponent = magnitude / 0x80_0000;
    let fraction = magnitude % 0x80_0000;
    if exponent == 255 {
        None
    } else if magnitude == 0 {
        Some(0)
    } else if exponent < 127 {
        None
    } else if exponent >= 150 {
        Some(doubled(0x80_0000 + fraction, (exponent - 150) as nat))
    } else {
        halved(0x80_0000 + fraction, (150 - exponent) as nat)
    }
}

/// The `i32` nearest to the whole number that the bits denote, where they denote
/// one.
pub open spec fn whole_i32(bits: u32) -> Option<i32> {
    match whole_magnitude(bits) {
        None => None,
        Some(m) => if bits >= 0x8000_0000 {
            Some(
                if m > 0x8000_0000 {
                    i32::MIN
                } else {
                    (-m) as i32
                },
            )
        } else {
            Some(
                if m > 0x7FFF_FFFF {
                    i32::MAX
                } else {
                    m as i32
                },
            )
        },
    }
}

fn halve(m: u32, k: u32) -> (r: Option<u32>)
    ensures
        r is Some <==> halved(m as nat, k as nat) is Some,
        r matches Some(v) ==> halved(m as nat, k as nat) == Some(v as nat),
    decreases k,
{
    if k == 0 {
        Some(m)
    } else if m % 2 != 0 {
        None
    } else {
        halve(m / 2, k - 1)
    }
}

/// `m` doubled `k` times, or a number past every `i32` where it gets that far.
fn double(m: u64, k: u32) -> (r: u64)
    requires
        m <= 0x1_0000_0000,
    ensures
        r == doubled(m as nat, k as nat) || (r > 0x8000_0000 && doubled(m as nat, k as nat)
            > 0x8000_0000),
    decreases k,
{
    if k == 0 {
        m
    } else if m > 0x8000_0000 {
        proof {
            lemma_doubled_grows(m as nat, k as nat);
        }
        m
    } else {
        double(2 * m, k - 1)
    }
}

/// The `i32` nearest to the whole number that single-precision bits denote;
/// nothing where they denote a fraction, an infinity or no number.
pub fn whole_number(bits: u32) -> (r: Option<i32>)
    ensures
        r == whole_i32(bits),
{
    let magnitude: u32 = bits % 0x8000_0000;
    let exponent: u32 = magnitude / 0x80_0000;
    let fraction: u32 = magnitude % 0x80_0000;
    let negative = bits >= 0x8000_0000;
    let m: u64 = if exponent == 255 {
        return None;
    } else if magnitude == 0 {
        0
    } else if exponent < 127 {
        return None;
    } else if exponent >= 150 {
        double((0x80_0000 + fraction) as u64, exponent - 150)
    } else {
        match halve(0x80_0000 + fraction, 150 - exponent) {
            Some(m) => m as u64,
            None => {
                return None;
            },
        }
    };
    if negative {
        if m > 0x8000_0000 {
            Some(i32::MIN)
        } else {
            Some((-(m as i64)) as i32)
        }
    } else if m > 0x7FFF_FFFF {
        Some(i32::MAX)
    } else {
        Some(m as i32)
    }
}

/// Whether single-precision bits denote a number above zero, infinity included.
pub open spec fn is_positive(bits: u32) -> bool {
    0 < bits <= 0x7F80_0000
}

/// Whether single-precision bits denote a number below zero, infinity included.
pub open spec fn is_negative(bits: u32) -> bool {
    0x8000_0000 < bits <= 0xFF80_0000
}

/// Whether single-precision bits denote a finite number.
pub open spec fn is_finite(bits: u32) -> bool {
    bits % 0x8000_0000 < 0x7F80_0000
}

/// Whether single-precision bits denote no number.
pub open spec fn is_nan(bits: u32) -> bool {
    bits % 0x8000_0000 > 0x7F80_0000
}

/// Whether single-precision bits denote no number.
pub fn nan(bits: u32) -> (b: bool)
    ensures
        b == is_nan(bits),
{
    bits % 0x8000_0000 > 0x7F80_0000
}

/// Where single-precision bits stand in the order of numbers: bits of finite
/// numbers compare as these do.
pub open spec fn rank(bits: u32) -> int {
    if bits >= 0x8000_0000 {
        0x8000_0000 - bits
    } else {
        bits as int
    }
}

/// Whether single-precision bits denote a number above zero, infinity included.
pub fn positive(bits: u32) -> (b: bool)
    ensures
        b == is_positive(bits),
{
    0 < bits && bits <= 0x7F80_0000
}

/// Whether single-precision bits denote a number below zero, infinity included.
pub fn negative(bits: u32) -> (b: bool)
    ensures
        b == is_negative(bits),
{
    0x8000_0000 < bits && bits <= 0xFF80_0000
}

/// Whether single-precision bits denote a finite number.
pub fn finite(bits: u32) -> (b: bool)
    ensures
        b == is_finite(bits),
{
    bits % 0x8000_0000 < 0x7F80_0000
}

/// Where single-precision bits stand in the order of finite numbers.
pub fn place(bits: u32) -> (r: i64)
    ensures
        r == rank(bits),
{
    if bits >= 0x8000_0000 {
        0x8000_0000 - bits as i64
    } else {
        bits as i64
    }
}

/// Whether double-precision bits denote a number, infinities included.
pub open spec fn is_double(bits: u64) -> bool {
    bits % 0x8000_0000_0000_0000 <= 0x7FF0_0000_0000_0000
}

/// Where double-precision bits stand in the order of numbers: bits of numbers
/// compare as these do.
pub open spec fn rank_double(bits: u64) -> int {
    if bits >= 0x8000_0000_0000_0000 {
        0x8000_0000_0000_0000 - bits
    } else {
        bits as int
    }
}

/// Whether double-precision bits denote a number, infinities included.
pub fn number(bits: u64) -> (b: bool)
    ensures
        b == is_double(bits),
{
    bits % 0x8000_0000_0000_0000 <= 0x7FF0_0000_0000_0000
}

/// Where double-precision bits stand in the order of numbers.
pub fn double_place(bits: u64) -> (r: i128)
    ensures
        r == rank_double(bits),
{
    if bits >= 0x8000_0000_0000_0000 {
        0x8000_0000_0000_0000 - bits as i128
    } else {
        bits as i128
    }
}

/// Whether two doubles compare as different: what is no number differs from
/// everything.
pub open spec fn doubles_differ(a: u64, b: u64) -> bool {
    !(is_double(a) && is_double(b) && rank_double(a) == rank_double(b))
}

/// Whether two doubles compare as different.
pub fn differ(a: u64, b: u64) -> (r: bool)
    ensures
        r == doubles_differ(a, b),
{
    !(number(a) && number(b) && double_place(a) == double_place(b))
}

/// Whether double-precision bits denote a number below zero.
pub open spec fn is_negative_double(bits: u64) -> bool {
    0x8000_0000_0000_0000 < bits <= 0xFFF0_0000_0000_0000
}

/// Whether double-precision bits denote a number below zero.
pub fn negative_double(bits: u64) -> (b: bool)
    ensures
        b == is_negative_double(bits),
{
    0x8000_0000_0000_0000 < bits && bits <= 0xFFF0_0000_0000_0000
}

/// Whether double-precision bits denote a number above zero.
pub open spec fn is_positive_double(bits: u64) -> bool {
    0 < bits <= 0x7FF0_0000_0000_0000
}

/// Whether double-precision bits denote a number above zero.
pub fn positive_double(bits: u64) -> (b: bool)
    ensures
        b == is_positive_double(bits),
{
    0 < bits && bits <= 0x7FF0_0000_0000_0000
}

/// How often the significand of a double is halved to give its value; below
/// zero where it is doubled instead.
pub open spec fn double_halvings(bits: u64) -> int {
    let exponent = bits as int % 0x8000_0000_0000_0000 / 0x10_0000_0000_0000;
    if exponent == 0 {
        1074
    } else {
        1075 - exponent
    }
}

/// The significand of a double, as a whole number.
pub open spec fn double_significand(bits: u64) -> int {
    let magnitude = bits as int % 0x8000_0000_0000_0000;
    let fraction = magnitude % 0x10_0000_0000_0000;
    if magnitude < 0x10_0000_0000_0000 {
        fraction
    } else {
        0x10_0000_0000_0000 + fraction
    }
}

/// The nearest `i32` to a number.
pub open spec fn saturated(n: int) -> i32 {
    if n < i32::MIN {
        i32::MIN
    } else if n > i32::MAX {
        i32::MAX
    } else {
        n as i32
    }
}

/// The whole number next to a double, up or down, as the nearest `i32`; zero for
/// what is no number.
pub open spec fn rounded(bits: u64, up: bool) -> i32 {
    let halvings = double_halvings(bits);
    let negative = bits >= 0x8000_0000_0000_0000;
    if !is_double(bits) {
        0
    } else if halvings <= 0 {
        if negative {
            i32::MIN
        } else {
            i32::MAX
        }
    } else {
        let significand = double_significand(bits);
        let unit = pow2(halvings as nat) as int;
        let whole = if negative != up {
            (significand + unit - 1) / unit
        } else {
            significand / unit
        };
        saturated(
            if negative {
                -whole
            } else {
                whole
            },
        )
    }
}

/// The largest whole number that is not above a double, as the nearest `i32`.
pub open spec fn floor_of(bits: u64) -> i32 {
    rounded(bits, false)
}

/// The smallest whole number that is not below a double, as the nearest `i32`.
pub open spec fn ceil_of(bits: u64) -> i32 {
    rounded(bits, true)
}

fn round_double(bits: u64, up: bool) -> (n: i32)
    ensures
        n == rounded(bits, up),
{
    let magnitude: u64 = bits % 0x8000_0000_0000_0000;
    let exponent: u64 = magnitude / 0x10_0000_0000_0000;
    let fraction: u64 = magnitude % 0x10_0000_0000_0000;
    let negative = bits >= 0x8000_0000_0000_0000;
    if !number(bits) {
        return 0;
    }
    let (halvings, significand): (i64, u64) = if exponent == 0 {
        (1074, fraction)
    } else {
        (1075 - exponent as i64, 0x10_0000_0000_0000 + fraction)
    };
    if halvings <= 0 {
        return if negative {
            i32::MIN
        } else {
            i32::MAX
        };
    }
    let away = negative != up;
    proof {
        lemma2_to64();
        lemma_pow2_pos(halvings as nat);
    }
    let whole: i128 = if halvings >= 54 {
        proof {
            if halvings > 54 {
                lemma_pow2_strictly_increases(54, halvings as nat);
            }
            assert(pow2(54) == 0x40_0000_0000_0000) by {
                lemma2_to64_rest();
            }
            let unit = pow2(halvings as nat) as int;
            let m = significand as int;
            assert(0 <= m < unit);
            assert(m / unit == 0) by (nonlinear_arith)
                requires
                    0 <= m < unit,
            ;
            assert((m + unit - 1) / unit == if m == 0 { 0int } else { 1int }) by (nonlinear_arith)
                requires
                    0 <= m < unit,
            ;
        }
        if away && significand > 0 {
            1
        } else {
            0
        }
    } else {
        let unit: u64 = power_of_two(halvings as u8);
        if away {
            (significand as i128 + unit as i128 - 1) / unit as i128
        } else {
            significand as i128 / unit as i128
        }
    };
    let whole: i128 = if negative {
        -whole
    } else {
        whole
    };
    if whole < i32::MIN as i128 {
        i32::MIN
    } else if whole > i32::MAX as i128 {
        i32::MAX
    } else {
        whole as i32
    }
}

/// The largest whole number that is not above a double, as the nearest `i32`.
pub fn floor_double(bits: u64) -> (n: i32)
    ensures
        n == floor_of(bits),
{
    round_double(bits, false)
}

/// The smallest whole number that is not below a double, as the nearest `i32`.
pub fn ceil_double(bits: u64) -> (n: i32)
    ensures
        n == ceil_of(bits),
{
    round_double(bits, true)
}

/// Whether two singles compare as equal: the two zeros do, and what is no number
/// equals nothing.
pub open spec fn singles_equal(a: u32, b: u32) -> bool {
    !is_nan(a) && !is_nan(b) && rank(a) == rank(b)
}

/// Whether two singles compare as equal.
pub fn same_single(a: u32, b: u32) -> (r: bool)
    ensures
        r == singles_equal(a, b),
{
    !nan(a) && !nan(b) && place(a) == place(b)
}

/// Whether two doubles compare as equal.
pub open spec fn doubles_equal(a: u64, b: u64) -> bool {
    !doubles_differ(a, b)
}

/// Whether two doubles compare as equal.
pub fn same_double(a: u64, b: u64) -> (r: bool)
    ensures
        r == doubles_equal(a, b),
{
    !differ(a, b)
}

/// A single-precision number by its bits. It compares as the number does.
#[derive(Debug, Clone, Copy)]
pub struct Single(pub u32);

impl PartialEq for Single {
    fn eq(&self, other: &Self) -> (r: bool) {
        same_single(self.0, other.0)
    }
}

impl PartialEqSpecImpl for Single {
    open spec fn obeys_eq_spec() -> bool {
        true
    }

    open spec fn eq_spec(&self, other: &Self) -> bool {
        singles_equal(self.0, other.0)
    }
}

/// A double-precision number by its bits. It compares as the number does.
#[derive(Debug, Clone, Copy)]
pub struct Double(pub u64);

impl PartialEq for Double {
    fn eq(&self, other: &Self) -> (r: bool) {
        same_double(self.0, other.0)
    }
}

impl PartialEqSpecImpl for Double {
    open spec fn obeys_eq_spec() -> bool {
        true
    }

    open spec fn eq_spec(&self, other: &Self) -> bool {
        doubles_equal(self.0, other.0)
    }
}

} // verus!
