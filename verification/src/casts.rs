//! What the integer casts of the language compute, as arithmetic.
use vstd::prelude::*;

verus! {

/// Reads `n`, a `2^bits`-wide pattern given by `modulus == 2^bits`, as a signed number.
pub open spec fn signed(n: int, modulus: int) -> int {
    if n >= modulus / 2 {
        n - modulus
    } else {
        n
    }
}

/// An `i32` and its unsigned pattern determine each other.
pub proof fn lemma_i32_u32(v: i32)
    ensures
        (v as u32) as i32 == v,
        v as u32 == v as int % 0x1_0000_0000,
{
    assert((v as u32) as i32 == v) by (bit_vector);
    assert(v as u32 == (if v < 0 { v + 0x1_0000_0000 } else { v as int })) by (bit_vector);
}

/// An `i64` and its unsigned pattern determine each other.
pub proof fn lemma_i64_u64(v: i64)
    ensures
        (v as u64) as i64 == v,
        v as u64 == v as int % 0x1_0000_0000_0000_0000,
{
    assert((v as u64) as i64 == v) by (bit_vector);
    assert(v as u64 == (if v < 0 { v + 0x1_0000_0000_0000_0000 } else { v as int })) by (bit_vector);
}

/// A `u32` read as signed, as arithmetic.
pub proof fn lemma_u32_i32(v: u32)
    ensures
        v as i32 == signed(v as int, 0x1_0000_0000),
        (v as i32) as u32 == v,
{
    assert((v as i32) as u32 == v) by (bit_vector);
    assert(v as i32 == (if v >= 0x8000_0000u32 { v - 0x1_0000_0000 } else { v as int })) by (bit_vector);
}

/// A `u64` read as signed, as arithmetic.
pub proof fn lemma_u64_i64(v: u64)
    ensures
        v as i64 == signed(v as int, 0x1_0000_0000_0000_0000),
        (v as i64) as u64 == v,
{
    assert((v as i64) as u64 == v) by (bit_vector);
    assert(v as i64 == (if v >= 0x8000_0000_0000_0000u64 { v - 0x1_0000_0000_0000_0000 } else {
        v as int
    })) by (bit_vector);
}

/// An `i16` and its unsigned pattern determine each other.
pub proof fn lemma_i16_u16(v: i16)
    ensures
        (v as u16) as i16 == v,
        v as u16 == v as int % 0x1_0000,
{
    assert((v as u16) as i16 == v) by (bit_vector);
    assert(v as u16 == (if v < 0 { v + 0x1_0000 } else { v as int })) by (bit_vector);
}

} // verus!
