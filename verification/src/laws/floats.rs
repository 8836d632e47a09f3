//! What the bits of fractions say.
use crate::float_bits::{
    ceil_double, differ, double_halvings, double_place, double_significand, doubled, finite,
    floor_double, halved, is_double, nan, negative, negative_double, number, place, positive,
    positive_double, same_double, same_single, whole_number,
};
use vstd::arithmetic::power2::{lemma2_to64, lemma_pow2_pos, lemma_pow2_unfold, pow2};
use vstd::prelude::*;

verus! {

/// The sign, the exponent and the fraction of a single tell its kind: an exponent of
/// 255 is infinite or no number, and any other finite.
pub proof fn law_singles_have_their_kinds(
    bits: u32,
    no_number: bool,
    is_finite: bool,
    above: bool,
    below: bool,
    at: i64,
)
    requires
        call_ensures(nan, (bits,), no_number),
        call_ensures(finite, (bits,), is_finite),
        call_ensures(positive, (bits,), above),
        call_ensures(negative, (bits,), below),
        call_ensures(place, (bits,), at),
    ensures
        ({
            let exponent = bits as int / 0x80_0000 % 256;
            let fraction = bits as int % 0x80_0000;
            &&& no_number <==> exponent == 255 && fraction != 0
            &&& is_finite <==> exponent != 255
            &&& above <==> !no_number && bits < 0x8000_0000 && bits != 0
            &&& below <==> !no_number && bits > 0x8000_0000
        }),
        bits < 0x8000_0000 ==> at == bits,
        bits >= 0x8000_0000 ==> at == -(bits - 0x8000_0000),
{
}

/// The same of a double.
pub proof fn law_doubles_have_their_kinds(
    bits: u64,
    is_number: bool,
    above: bool,
    below: bool,
    at: i128,
)
    requires
        call_ensures(number, (bits,), is_number),
        call_ensures(positive_double, (bits,), above),
        call_ensures(negative_double, (bits,), below),
        call_ensures(double_place, (bits,), at),
    ensures
        ({
            let exponent = bits as int / 0x10_0000_0000_0000 % 2048;
            let fraction = bits as int % 0x10_0000_0000_0000;
            &&& is_number <==> !(exponent == 2047 && fraction != 0)
            &&& above <==> is_number && bits < 0x8000_0000_0000_0000 && bits != 0
            &&& below <==> is_number && bits > 0x8000_0000_0000_0000
        }),
        bits < 0x8000_0000_0000_0000 ==> at == bits,
        bits >= 0x8000_0000_0000_0000 ==> at == -(bits - 0x8000_0000_0000_0000),
{
}

/// Fractions are the same where their bits are, or both are nought, and what is no
/// number is the same as nothing.
pub proof fn law_fractions_are_the_same_by_their_bits(
    a: u32,
    b: u32,
    singles: bool,
    x: u64,
    y: u64,
    doubles: bool,
    apart: bool,
    no_number: bool,
    is_number: bool,
)
    requires
        call_ensures(same_single, (a, b), singles),
        call_ensures(same_double, (x, y), doubles),
        call_ensures(differ, (x, y), apart),
        call_ensures(nan, (a,), no_number),
        call_ensures(number, (x,), is_number),
    ensures
        no_number ==> !singles,
        !no_number ==> (singles <==> a == b || (a % 0x8000_0000 == 0 && b % 0x8000_0000 == 0)),
        !is_number ==> !doubles,
        is_number ==> (doubles <==> x == y || (x % 0x8000_0000_0000_0000 == 0 && y
            % 0x8000_0000_0000_0000 == 0)),
        apart <==> !doubles,
{
}

/// What halving so often leaves is the quotient, where it is whole.
proof fn lemma_halved(m: nat, k: nat)
    ensures
        halved(m, k) matches Some(h) ==> m == h * pow2(k),
    decreases k,
{
    lemma2_to64();
    if k > 0 && m % 2 == 0 {
        lemma_halved(m / 2, (k - 1) as nat);
        lemma_pow2_unfold(k);
        if let Some(h) = halved(m, k) {
            let (a, p) = (h as int, pow2((k - 1) as nat) as int);
            assert(m / 2 == a * p);
            assert(2 * (a * p) == a * (2 * p)) by (nonlinear_arith);
        }
    } else if k == 0 {
        assert(m * pow2(0) == m);
    }
}

/// Where a single is whole and fits, the number is exact: its size times the power of
/// two that is missing is the significand, and its sign that of the bits. Below one
/// there is only nought.
pub proof fn law_whole_numbers_are_exact(bits: u32, r: Option<i32>)
    requires
        call_ensures(whole_number, (bits,), r),
    ensures
        ({
            let exponent = bits as int / 0x80_0000 % 256;
            let significand = 0x80_0000 + bits as int % 0x80_0000;
            &&& exponent == 255 ==> r is None
            &&& bits % 0x8000_0000 == 0 ==> r == Some(0i32)
            &&& bits % 0x8000_0000 != 0 && exponent < 127 ==> r is None
            &&& 127 <= exponent < 150 ==> (r matches Some(n) ==> {
                let size = if n < 0 { -n } else { n as int };
                significand == size * pow2((150 - exponent) as nat)
            })
            &&& exponent == 150 && bits < 0x8000_0000 ==> r == Some(significand as i32)
            &&& r matches Some(n) ==> (n > 0 ==> bits < 0x8000_0000) && (n < 0 ==> bits
                >= 0x8000_0000)
        }),
{
    let exponent = bits as int / 0x80_0000 % 256;
    let significand = (0x80_0000 + bits as int % 0x80_0000) as nat;
    let magnitude = bits as nat % 0x8000_0000;
    assert(magnitude / 0x80_0000 == exponent);
    assert(magnitude % 0x80_0000 == bits as nat % 0x80_0000);
    if 127 <= exponent < 150 {
        let k = (150 - exponent) as nat;
        lemma_halved(significand, k);
        lemma_pow2_pos(k);
        if let Some(h) = halved(significand, k) {
            let p = pow2(k) as int;
            let g = h as int;
            assert(g <= g * p) by (nonlinear_arith)
                requires
                    g >= 0,
                    p >= 1,
            ;
        }
    }
    if exponent == 150 {
        assert(doubled(significand, 0) == significand);
    }
}

/// Rounding down and up gives the whole numbers next to a double, both the same where
/// it is whole. Here the double is its significand halved some times, with its sign,
/// and the whole numbers fit.
pub proof fn law_floors_and_ceilings_are_next_to_the_number(bits: u64, down: i32, up: i32)
    requires
        call_ensures(floor_double, (bits,), down),
        call_ensures(ceil_double, (bits,), up),
        is_double(bits),
        double_halvings(bits) > 0,
        i32::MIN < down < i32::MAX,
        i32::MIN < up < i32::MAX,
    ensures
        ({
            let unit = pow2(double_halvings(bits) as nat) as int;
            let value = if bits >= 0x8000_0000_0000_0000 {
                -double_significand(bits)
            } else {
                double_significand(bits)
            };
            &&& down * unit <= value < (down + 1) * unit
            &&& (up - 1) * unit < value <= up * unit
        }),
{
    crate::laws::collisions::law_rounding_brackets_the_number(bits);
}

} // verus!
