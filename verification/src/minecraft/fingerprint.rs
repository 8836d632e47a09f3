//! Fingerprints of chunk data: a running 64-bit hash over a byte form.
use crate::minecraft::world::{ContainerModel, PalettedContainer};
use vstd::prelude::*;

verus! {

/// Where the hash starts.
pub const FNV_OFFSET: u64 = 0xcbf2_9ce4_8422_2325;

/// What the hash multiplies by.
pub const FNV_PRIME: u64 = 0x100_0000_01b3;

/// The hash of `bytes` on top of `h`: each byte is mixed in and multiplied.
pub open spec fn fnv(h: u64, bytes: Seq<u8>) -> u64
    decreases bytes.len(),
{
    if bytes.len() == 0 {
        h
    } else {
        (fnv(h, bytes.drop_last()) ^ (bytes.last() as u64)).wrapping_mul(FNV_PRIME)
    }
}

/// Hashing one sequence on top of another is hashing both.
pub proof fn law_hash_continues(h: u64, a: Seq<u8>, b: Seq<u8>)
    ensures
        fnv(fnv(h, a), b) == fnv(h, a + b),
    decreases b.len(),
{
    if b.len() == 0 {
        assert(a + b =~= a);
    } else {
        law_hash_continues(h, a, b.drop_last());
        assert((a + b).drop_last() =~= a + b.drop_last());
    }
}

/// The writing of `v` in `n` bytes, least significant first.
pub open spec fn le_bytes(v: nat, n: nat) -> Seq<u8>
    decreases n,
{
    if n == 0 {
        Seq::empty()
    } else {
        seq![(v % 256) as u8] + le_bytes(v / 256, (n - 1) as nat)
    }
}

/// Numbers of four bytes one after the other.
pub open spec fn words_bytes(s: Seq<u32>) -> Seq<u8>
    decreases s.len(),
{
    if s.len() == 0 {
        Seq::empty()
    } else {
        words_bytes(s.drop_last()) + le_bytes(s.last() as nat, 4)
    }
}

/// Numbers of eight bytes one after the other.
pub open spec fn longs_bytes(s: Seq<u64>) -> Seq<u8>
    decreases s.len(),
{
    if s.len() == 0 {
        Seq::empty()
    } else {
        longs_bytes(s.drop_last()) + le_bytes(s.last() as nat, 8)
    }
}

/// Signed numbers of eight bytes one after the other.
pub open spec fn signed_longs_bytes(s: Seq<i64>) -> Seq<u8>
    decreases s.len(),
{
    if s.len() == 0 {
        Seq::empty()
    } else {
        signed_longs_bytes(s.drop_last()) + le_bytes((s.last() as u64) as nat, 8)
    }
}

/// Byte arrays one after the other, each behind its length.
pub open spec fn arrays_bytes(s: Seq<Vec<u8>>) -> Seq<u8>
    decreases s.len(),
{
    if s.len() == 0 {
        Seq::empty()
    } else {
        arrays_bytes(s.drop_last()) + (le_bytes(s.last()@.len(), 8) + s.last()@)
    }
}

/// The byte form of a container: which form it has, then its parts.
pub open spec fn container_bytes(c: ContainerModel) -> Seq<u8> {
    match c {
        ContainerModel::Single(v) => seq![0u8] + le_bytes(v as nat, 4),
        ContainerModel::Indirect { bits, palette, data } => seq![1u8, bits] + le_bytes(
            palette.len(),
            8,
        ) + words_bytes(palette) + le_bytes(data.len(), 8) + longs_bytes(data),
        ContainerModel::Direct { bits, data } => seq![2u8, bits] + le_bytes(data.len(), 8)
            + longs_bytes(data),
    }
}

/// A running hash.
pub struct Fnv64(pub u64);

impl Fnv64 {
    /// Starts a hash.
    pub fn new() -> (h: Self)
        ensures
            h.0 == FNV_OFFSET,
    {
        Fnv64(FNV_OFFSET)
    }

    /// Mixes bytes in.
    pub fn write(&mut self, bytes: &[u8])
        ensures
            final(self).0 == fnv(old(self).0, bytes@),
    {
        let mut i: usize = 0;
        let n: usize = bytes.len();
        assert(bytes@.take(0) =~= Seq::empty());
        while i < n
            invariant
                i <= n,
                n == bytes@.len(),
                self.0 == fnv(old(self).0, bytes@.take(i as int)),
            decreases n - i,
        {
            self.0 = (self.0 ^ bytes[i] as u64).wrapping_mul(FNV_PRIME);
            i += 1;
            assert(bytes@.take(i as int).drop_last() =~= bytes@.take(i - 1));
        }
        assert(bytes@.take(i as int) =~= bytes@);
    }

    /// Mixes one byte in.
    pub fn write_byte(&mut self, byte: u8)
        ensures
            final(self).0 == fnv(old(self).0, seq![byte]),
    {
        self.0 = (self.0 ^ byte as u64).wrapping_mul(FNV_PRIME);
        proof {
            assert(seq![byte].drop_last() =~= Seq::empty());
            reveal_with_fuel(fnv, 2);
        }
    }

    /// Mixes a number in, least significant byte first.
    pub fn write_le(&mut self, v: u64, n: usize)
        ensures
            final(self).0 == fnv(old(self).0, le_bytes(v as nat, n as nat)),
        decreases n,
    {
        if n > 0 {
            let ghost start = self.0;
            self.write_byte((v % 256) as u8);
            self.write_le(v / 256, n - 1);
            proof {
                law_hash_continues(
                    start,
                    seq![(v % 256) as u8],
                    le_bytes((v / 256) as nat, (n - 1) as nat),
                );
            }
        }
    }

    /// The hash.
    pub fn finish(self) -> (h: u64)
        ensures
            h == self.0,
    {
        self.0
    }
}

/// Mixes a length in.
pub fn write_len(hash: &mut Fnv64, value: usize)
    ensures
        final(hash).0 == fnv(old(hash).0, le_bytes(value as nat, 8)),
{
    hash.write_le(value as u64, 8);
}

fn hash_words(hash: &mut Fnv64, values: &Vec<u32>)
    ensures
        final(hash).0 == fnv(old(hash).0, le_bytes(values@.len(), 8) + words_bytes(values@)),
{
    let ghost start = hash.0;
    write_len(hash, values.len());
    let ghost head = le_bytes(values@.len(), 8);
    let mut i: usize = 0;
    assert(head + words_bytes(values@.take(0)) =~= head);
    while i < values.len()
        invariant
            i <= values@.len(),
            hash.0 == fnv(start, head + words_bytes(values@.take(i as int))),
        decreases values@.len() - i,
    {
        hash.write_le(values[i] as u64, 4);
        i += 1;
        proof {
            assert(values@.take(i as int).drop_last() =~= values@.take(i - 1));
            let done = head + words_bytes(values@.take(i - 1));
            let more = le_bytes(values@[i - 1] as nat, 4);
            law_hash_continues(start, done, more);
            assert(done + more =~= head + words_bytes(values@.take(i as int)));
        }
    }
    assert(values@.take(i as int) =~= values@);
}

fn hash_longs(hash: &mut Fnv64, values: &Vec<u64>)
    ensures
        final(hash).0 == fnv(old(hash).0, le_bytes(values@.len(), 8) + longs_bytes(values@)),
{
    let ghost start = hash.0;
    write_len(hash, values.len());
    let ghost head = le_bytes(values@.len(), 8);
    let mut i: usize = 0;
    assert(head + longs_bytes(values@.take(0)) =~= head);
    while i < values.len()
        invariant
            i <= values@.len(),
            hash.0 == fnv(start, head + longs_bytes(values@.take(i as int))),
        decreases values@.len() - i,
    {
        hash.write_le(values[i], 8);
        i += 1;
        proof {
            assert(values@.take(i as int).drop_last() =~= values@.take(i - 1));
            let done = head + longs_bytes(values@.take(i - 1));
            let more = le_bytes(values@[i - 1] as nat, 8);
            law_hash_continues(start, done, more);
            assert(done + more =~= head + longs_bytes(values@.take(i as int)));
        }
    }
    assert(values@.take(i as int) =~= values@);
}

/// Mixes signed longs in, behind their count.
pub fn hash_i64s(hash: &mut Fnv64, values: &Vec<i64>)
    ensures
        final(hash).0 == fnv(old(hash).0, le_bytes(values@.len(), 8) + signed_longs_bytes(values@)),
{
    let ghost start = hash.0;
    write_len(hash, values.len());
    let ghost head = le_bytes(values@.len(), 8);
    let mut i: usize = 0;
    assert(head + signed_longs_bytes(values@.take(0)) =~= head);
    while i < values.len()
        invariant
            i <= values@.len(),
            hash.0 == fnv(start, head + signed_longs_bytes(values@.take(i as int))),
        decreases values@.len() - i,
    {
        hash.write_le(values[i] as u64, 8);
        i += 1;
        proof {
            assert(values@.take(i as int).drop_last() =~= values@.take(i - 1));
            let done = head + signed_longs_bytes(values@.take(i - 1));
            let more = le_bytes((values@[i - 1] as u64) as nat, 8);
            law_hash_continues(start, done, more);
            assert(done + more =~= head + signed_longs_bytes(values@.take(i as int)));
        }
    }
    assert(values@.take(i as int) =~= values@);
}

/// Mixes byte arrays in, behind their count and each behind its length.
pub fn hash_byte_arrays(hash: &mut Fnv64, arrays: &Vec<Vec<u8>>)
    ensures
        final(hash).0 == fnv(old(hash).0, le_bytes(arrays@.len(), 8) + arrays_bytes(arrays@)),
{
    let ghost start = hash.0;
    write_len(hash, arrays.len());
    let ghost head = le_bytes(arrays@.len(), 8);
    let mut i: usize = 0;
    assert(head + arrays_bytes(arrays@.take(0)) =~= head);
    while i < arrays.len()
        invariant
            i <= arrays@.len(),
            hash.0 == fnv(start, head + arrays_bytes(arrays@.take(i as int))),
        decreases arrays@.len() - i,
    {
        write_len(hash, arrays[i].len());
        hash.write(arrays[i].as_slice());
        i += 1;
        proof {
            assert(arrays@.take(i as int).drop_last() =~= arrays@.take(i - 1));
            let done = head + arrays_bytes(arrays@.take(i - 1));
            let len = le_bytes(arrays@[i - 1]@.len(), 8);
            let more = arrays@[i - 1]@;
            law_hash_continues(start, done, len);
            law_hash_continues(start, done + len, more);
            assert(done + len + more =~= head + arrays_bytes(arrays@.take(i as int)));
        }
    }
    assert(arrays@.take(i as int) =~= arrays@);
}

/// Mixes a container in.
pub fn hash_container(hash: &mut Fnv64, container: &PalettedContainer)
    ensures
        final(hash).0 == fnv(old(hash).0, container_bytes(container@)),
{
    let ghost start = hash.0;
    match container {
        PalettedContainer::Single(value) => {
            hash.write_byte(0);
            hash.write_le(*value as u64, 4);
            proof {
                law_hash_continues(start, seq![0u8], le_bytes(*value as nat, 4));
            }
        },
        PalettedContainer::Indirect { bits, palette, data } => {
            hash.write_byte(1);
            hash.write_byte(*bits);
            hash_words(hash, palette);
            hash_longs(hash, data);
            proof {
                let words = le_bytes(palette@.len(), 8) + words_bytes(palette@);
                let longs = le_bytes(data@.len(), 8) + longs_bytes(data@);
                law_hash_continues(start, seq![1u8], seq![*bits]);
                assert(seq![1u8] + seq![*bits] =~= seq![1u8, *bits]);
                law_hash_continues(start, seq![1u8, *bits], words);
                law_hash_continues(start, seq![1u8, *bits] + words, longs);
                assert(seq![1u8, *bits] + words + longs =~= container_bytes(container@));
            }
        },
        PalettedContainer::Direct { bits, data } => {
            hash.write_byte(2);
            hash.write_byte(*bits);
            hash_longs(hash, data);
            proof {
                let longs = le_bytes(data@.len(), 8) + longs_bytes(data@);
                law_hash_continues(start, seq![2u8], seq![*bits]);
                assert(seq![2u8] + seq![*bits] =~= seq![2u8, *bits]);
                law_hash_continues(start, seq![2u8, *bits], longs);
                assert(seq![2u8, *bits] + longs =~= container_bytes(container@));
            }
        },
    }
}

} // verus!
