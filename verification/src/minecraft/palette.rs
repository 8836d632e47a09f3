//! Numbers packed side by side into longs.
use vstd::arithmetic::div_mod::{lemma_div_denominator, lemma_div_multiples_vanish_fancy, lemma_mod_multiples_vanish, lemma_small_mod};
use vstd::arithmetic::power2::{
    lemma2_to64, lemma_pow2_adds, lemma_pow2_pos, lemma_pow2_strictly_increases, lemma_pow2_unfold,
    pow2,
};
use vstd::prelude::*;

verus! {

/// The `j`th group of `bits` bits of a long, counted from the low end.
pub open spec fn digit(long: nat, bits: nat, j: nat) -> nat {
    (long / pow2(j * bits)) % pow2(bits)
}

/// How many values of `bits` bits fit a long.
pub open spec fn per_long(bits: nat) -> nat {
    64nat / bits
}

/// How many longs `entries` values take.
pub open spec fn long_count(bits: nat, entries: nat) -> nat {
    (entries + per_long(bits) - 1) as nat / per_long(bits)
}

/// The value at an index of packed data; past the end there is none.
pub open spec fn unpacked(bits: nat, data: Seq<u64>, index: nat) -> Option<u32> {
    let at = index / per_long(bits);
    if at < data.len() {
        Some(digit(data[at as int] as nat, bits, index % per_long(bits)) as u32)
    } else {
        None
    }
}

/// Values side by side in one number, the first in the low bits.
pub open spec fn packed(values: Seq<u32>, bits: nat) -> nat
    decreases values.len(),
{
    if values.len() == 0 {
        0
    } else {
        values[0] as nat + pow2(bits) * packed(values.drop_first(), bits)
    }
}

/// Every value fits the bits.
pub open spec fn all_fit(values: Seq<u32>, bits: nat) -> bool {
    forall|i: int| 0 <= i < values.len() ==> (#[trigger] values[i]) < pow2(bits)
}

/// The number of bits that a value takes.
pub open spec fn bit_length(v: nat) -> nat
    decreases v,
{
    if v == 0 {
        0
    } else {
        1 + bit_length(v / 2)
    }
}

/// A value is below two to the number of bits it takes.
pub proof fn lemma_bit_length(v: nat)
    ensures
        v < pow2(bit_length(v)),
        forall|n: nat| v < #[trigger] pow2(n) ==> bit_length(v) <= n,
    decreases v,
{
    lemma2_to64();
    if v > 0 {
        lemma_bit_length(v / 2);
        lemma_pow2_unfold(bit_length(v));
        assert forall|n: nat| v < #[trigger] pow2(n) implies bit_length(v) <= n by {
            if n == 0 {
            } else {
                lemma_pow2_unfold(n);
                assert(v / 2 < pow2((n - 1) as nat));
            }
        }
    } else {
        lemma_pow2_pos(0);
    }
}

/// The number of bits that a value takes.
pub fn bits_of(v: u32) -> (n: u8)
    ensures
        n == bit_length(v as nat),
        n <= 32,
{
    let mut rest: u32 = v;
    let mut n: u8 = 0;
    proof {
        lemma_bit_length(v as nat);
        lemma2_to64();
        assert(bit_length(v as nat) <= 32);
    }
    while rest > 0
        invariant
            n + bit_length(rest as nat) == bit_length(v as nat),
            bit_length(v as nat) <= 32,
        decreases rest,
    {
        rest = rest / 2;
        n += 1;
    }
    n
}

/// Two to the power `n`.
pub fn power_of_two(n: u8) -> (p: u64)
    requires
        n < 64,
    ensures
        p == pow2(n as nat),
        p > 0,
{
    let mut p: u64 = 1;
    let mut i: u8 = 0;
    proof {
        lemma2_to64();
    }
    while i < n
        invariant
            i <= n < 64,
            p == pow2(i as nat),
            pow2(64) == 0x1_0000_0000_0000_0000,
        decreases n - i,
    {
        proof {
            lemma_pow2_unfold(i as nat + 1);
            lemma_pow2_strictly_increases(i as nat + 1, 64);
        }
        p = p * 2;
        i += 1;
    }
    proof {
        lemma_pow2_pos(n as nat);
    }
    p
}

/// Values that fit their bits stay below two to the bits they take together.
pub proof fn lemma_packed_bound(values: Seq<u32>, bits: nat)
    requires
        all_fit(values, bits),
    ensures
        packed(values, bits) < pow2(values.len() * bits),
    decreases values.len(),
{
    lemma2_to64();
    if values.len() > 0 {
        let rest = values.drop_first();
        assert(all_fit(rest, bits)) by {
            assert forall|i: int| 0 <= i < rest.len() implies (#[trigger] rest[i]) < pow2(bits) by {
                assert(rest[i] == values[i + 1]);
            }
        }
        lemma_packed_bound(rest, bits);
        let n = rest.len();
        assert(values.len() * bits == n * bits + bits) by (nonlinear_arith)
            requires
                values.len() == n + 1,
        ;
        lemma_pow2_adds(bits, n * bits);
        let a = pow2(bits) as int;
        let b = pow2(n * bits) as int;
        let p = packed(rest, bits) as int;
        let v = values[0] as int;
        assert(v < a);
        assert(v + a * p < a * b) by (nonlinear_arith)
            requires
                0 <= v < a,
                0 <= p < b,
        ;
    }
}

/// What was packed can be read back, group by group.
pub proof fn lemma_packed_digit(values: Seq<u32>, bits: nat, j: nat)
    requires
        all_fit(values, bits),
        j < values.len(),
    ensures
        digit(packed(values, bits), bits, j) == values[j as int],
    decreases values.len(),
{
    let rest = values.drop_first();
    let a = pow2(bits) as int;
    let p = packed(rest, bits) as int;
    let v = values[0] as int;
    let whole = packed(values, bits) as int;
    lemma_pow2_pos(bits);
    assert(whole == a * p + v);
    assert(v < a);
    if j == 0 {
        lemma2_to64();
        assert(j * bits == 0) by (nonlinear_arith)
            requires
                j == 0,
        ;
        assert(whole / 1 == whole);
        lemma_mod_multiples_vanish(p, v, a);
        lemma_small_mod(v as nat, a as nat);
    } else {
        let k = (j - 1) as nat;
        assert(all_fit(rest, bits)) by {
            assert forall|i: int| 0 <= i < rest.len() implies (#[trigger] rest[i]) < pow2(bits) by {
                assert(rest[i] == values[i + 1]);
            }
        }
        lemma_packed_digit(rest, bits, k);
        assert(rest[k as int] == values[j as int]);
        assert(j * bits == bits + k * bits) by (nonlinear_arith)
            requires
                j == k + 1,
        ;
        lemma_pow2_adds(bits, k * bits);
        lemma_pow2_pos(k * bits);
        lemma_div_denominator(whole, a, pow2(k * bits) as int);
        lemma_div_multiples_vanish_fancy(p, v, a);
    }
}

/// Packs the values of a range into one long.
pub fn pack_long(values: &Vec<u32>, from: usize, to: usize, bits: u8) -> (long: u64)
    requires
        from <= to <= values@.len(),
        1 <= bits <= 32,
        (to - from) * bits <= 64,
        all_fit(values@.subrange(from as int, to as int), bits as nat),
    ensures
        long == packed(values@.subrange(from as int, to as int), bits as nat),
{
    let base: u64 = power_of_two(bits);
    let mut acc: u64 = 0;
    let mut i: usize = to;
    assert(values@.subrange(to as int, to as int) =~= Seq::<u32>::empty());
    while i > from
        invariant
            from <= i <= to <= values@.len(),
            1 <= bits <= 32,
            (to - from) * bits <= 64,
            base == pow2(bits as nat),
            all_fit(values@.subrange(from as int, to as int), bits as nat),
            acc == packed(values@.subrange(i as int, to as int), bits as nat),
        decreases i - from,
    {
        i -= 1;
        proof {
            let next = values@.subrange(i as int, to as int);
            assert(next.drop_first() =~= values@.subrange(i + 1, to as int));
            assert(next[0] == values@[i as int]);
            assert(all_fit(next, bits as nat)) by {
                assert forall|k: int| 0 <= k < next.len() implies (#[trigger] next[k]) < pow2(
                    bits as nat,
                ) by {
                    let whole = values@.subrange(from as int, to as int);
                    assert(whole[i - from + k] == next[k]);
                }
            }
            lemma_packed_bound(next, bits as nat);
            lemma2_to64();
            let len = next.len();
            let b = bits as nat;
            assert(len * b <= 64) by (nonlinear_arith)
                requires
                    len == to - i,
                    i >= from,
                    (to - from) * b <= 64,
            ;
            if len * b < 64 {
                lemma_pow2_strictly_increases(len * b, 64);
            }
            assert(pow2(64) == 0x1_0000_0000_0000_0000);
            let p = packed(next.drop_first(), b) as int;
            assert(p * base == pow2(b) * p) by (nonlinear_arith)
                requires
                    base == pow2(b),
            ;
            assert(acc * base >= 0) by (nonlinear_arith)
                requires
                    acc >= 0,
                    base >= 0,
            ;
        }
        acc = acc * base + values[i] as u64;
    }
    acc
}

/// The value at an index of packed data; past the end there is none.
pub fn packed_value(bits: u8, data: &Vec<u64>, index: usize) -> (v: Option<u32>)
    requires
        1 <= bits <= 32,
    ensures
        v == unpacked(bits as nat, data@, index as nat),
{
    let per: usize = 64 / bits as usize;
    proof {
        assert(per >= 2) by (nonlinear_arith)
            requires
                per == 64int / (bits as int),
                1 <= bits <= 32,
        ;
    }
    let at: usize = index / per;
    if at >= data.len() {
        return None;
    }
    let j: usize = index % per;
    proof {
        assert(j * bits < 64) by (nonlinear_arith)
            requires
                j < per,
                per == 64int / (bits as int),
                1 <= bits <= 32,
        ;
    }
    let shift: u8 = j as u8 * bits;
    let low: u64 = data[at] / power_of_two(shift);
    let base: u64 = power_of_two(bits);
    proof {
        lemma2_to64();
        if bits < 32 {
            lemma_pow2_strictly_increases(bits as nat, 32);
        }
        assert((low % base) < base) by (nonlinear_arith)
            requires
                base > 0,
        ;
    }
    Some((low % base) as u32)
}

/// The values that share the `k`th long.
pub open spec fn group(values: Seq<u32>, bits: nat, k: int) -> Seq<u32> {
    let from = k * per_long(bits);
    let to = if from + per_long(bits) <= values.len() {
        from + per_long(bits)
    } else {
        values.len() as int
    };
    values.subrange(from, to)
}

/// Values packed into longs, as many to a long as fit, the first in the low
/// bits of the first long.
pub open spec fn packed_longs(values: Seq<u32>, bits: nat) -> Seq<u64> {
    Seq::new(
        long_count(bits, values.len()),
        |k: int| packed(group(values, bits, k), bits) as u64,
    )
}

/// How many values a long holds: from two to sixty-four, none of them cut.
pub proof fn lemma_per_long(bits: nat)
    requires
        1 <= bits <= 32,
    ensures
        2 <= per_long(bits) <= 64,
        per_long(bits) * bits <= 64,
{
    let per = per_long(bits);
    assert(2 <= per <= 64 && per * bits <= 64) by (nonlinear_arith)
        requires
            per == 64nat / bits,
            1 <= bits <= 32,
    ;
}

/// A group of values that fit their bits makes a long.
proof fn lemma_group(values: Seq<u32>, bits: nat, k: int)
    requires
        1 <= bits <= 32,
        all_fit(values, bits),
        0 <= k < long_count(bits, values.len()),
    ensures
        0 <= k * per_long(bits) < values.len(),
        all_fit(group(values, bits, k), bits),
        packed(group(values, bits, k), bits) <= u64::MAX,
        group(values, bits, k).len() <= per_long(bits),
{
    lemma_per_long(bits);
    let per = per_long(bits);
    let n = values.len();
    assert(0 <= k * per < n) by (nonlinear_arith)
        requires
            0 <= k < (n + per - 1) as nat / per,
            per >= 2,
    ;
    let part = group(values, bits, k);
    assert forall|i: int| 0 <= i < part.len() implies (#[trigger] part[i]) < pow2(bits) by {
        assert(part[i] == values[k * per + i]);
    }
    lemma_packed_bound(part, bits);
    let len = part.len();
    assert(len * bits <= 64) by (nonlinear_arith)
        requires
            len <= per,
            per * bits <= 64,
    ;
    lemma2_to64();
    if len * bits < 64 {
        lemma_pow2_strictly_increases(len * bits, 64);
    }
}

/// What was packed into longs is read back value by value.
pub proof fn law_packed_values_read_back(values: Seq<u32>, bits: nat, i: int)
    requires
        1 <= bits <= 32,
        all_fit(values, bits),
        0 <= i < values.len(),
    ensures
        unpacked(bits, packed_longs(values, bits), i as nat) == Some(values[i]),
{
    lemma_per_long(bits);
    let per = per_long(bits);
    let n = values.len();
    let k = i / per as int;
    let j = i % per as int;
    assert(0 <= k < (n + per - 1) as nat / per && i == k * per + j && 0 <= j < per)
        by (nonlinear_arith)
        requires
            0 <= i < n,
            per >= 2,
            k == i / per as int,
            j == i % per as int,
    ;
    lemma_group(values, bits, k);
    let part = group(values, bits, k);
    assert(j < part.len());
    assert(part[j] == values[i]);
    lemma_packed_digit(part, bits, j as nat);
}

/// How many longs entries of so many bits take.
pub fn longs_for(entries: usize, bits: u8) -> (longs: usize)
    requires
        1 <= bits <= 32,
    ensures
        longs == long_count(bits as nat, entries as nat),
{
    proof {
        lemma_per_long(bits as nat);
    }
    let per: u128 = 64 / bits as u128;
    let longs: u128 = (entries as u128 + per - 1) / per;
    proof {
        assert(longs <= entries) by (nonlinear_arith)
            requires
                longs == (entries + per - 1) / per as int,
                per >= 2,
                entries >= 0,
        ;
    }
    longs as usize
}

/// Packs values into longs, as many to a long as fit.
pub fn pack_all(values: &Vec<u32>, bits: u8) -> (data: Vec<u64>)
    requires
        1 <= bits <= 32,
        all_fit(values@, bits as nat),
    ensures
        data@ == packed_longs(values@, bits as nat),
{
    let per: usize = 64 / bits as usize;
    let count: usize = values.len();
    proof {
        lemma_per_long(bits as nat);
    }
    let longs: usize = longs_for(count, bits);
    let mut data: Vec<u64> = Vec::new();
    let mut k: usize = 0;
    while k < longs
        invariant
            2 <= per <= 64,
            per == per_long(bits as nat),
            per * bits <= 64,
            1 <= bits <= 32,
            count == values@.len(),
            longs == long_count(bits as nat, values@.len()),
            all_fit(values@, bits as nat),
            data@.len() == k,
            k <= longs,
            forall|i: int|
                0 <= i < k ==> #[trigger] data@[i] == packed_longs(values@, bits as nat)[i],
        decreases longs - k,
    {
        proof {
            lemma_group(values@, bits as nat, k as int);
        }
        let from: usize = k * per;
        let to: usize = if per <= count - from {
            from + per
        } else {
            count
        };
        proof {
            assert((to - from) * bits <= 64) by (nonlinear_arith)
                requires
                    to - from <= per,
                    per * bits <= 64,
            ;
        }
        let long: u64 = pack_long(values, from, to, bits);
        data.push(long);
        k += 1;
    }
    assert(data@ =~= packed_longs(values@, bits as nat));
    data
}

} // verus!
