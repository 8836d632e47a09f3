//! Chunks and blocks: where an entry of a section stands in the world, and what a
//! change of blocks touches.
use crate::minecraft::palette::unpacked;
use crate::minecraft::world::{
    law_set_block_keeps_validity, law_set_block_leaves_the_rest, law_set_block_reads_back,
    law_values_are_kept_in_the_fewest_bits, ChunkModel, ContainerModel, SectionPosition, WorldModel,
};
use vstd::arithmetic::power2::{lemma_pow2_pos, pow2};
use vstd::prelude::*;

verus! {

/// After a column is loaded, the block at offset (lx, ly, lz) of its section `s`
/// is the section's entry number ly * 256 + lz * 16 + lx. Layers that the column
/// does not reach, and those outside the dimension, have no block.
pub proof fn law_loaded_columns_read_entry_by_entry(
    m: WorldModel,
    cx: int,
    cz: int,
    chunk: ChunkModel,
    s: int,
    lx: int,
    ly: int,
    lz: int,
)
    requires
        m.dimension.min_y as int % 16 == 0,
        0 <= s,
        0 <= lx < 16,
        0 <= ly < 16,
        0 <= lz < 16,
        s * 16 + ly < m.dimension.height,
    ensures
        ({
            let loaded = WorldModel { chunks: m.chunks.insert((cx, cz), chunk), ..m };
            loaded.block(16 * cx + lx, m.dimension.min_y + 16 * s + ly, 16 * cz + lz) == if s
                < chunk.sections.len() {
                chunk.sections[s].block_states.value((ly * 256 + lz * 16 + lx) as nat)
            } else {
                None
            }
        }),
{
    let loaded = WorldModel { chunks: m.chunks.insert((cx, cz), chunk), ..m };
    let (x, y, z) = (16 * cx + lx, m.dimension.min_y + 16 * s + ly, 16 * cz + lz);
    let base = m.dimension.min_y as int;
    assert(x / 16 == cx && x % 16 == lx);
    assert(z / 16 == cz && z % 16 == lz);
    assert((y - base) / 16 == s);
    assert(y % 16 == ly);
}

/// Loading a column changes no block of another column, and unloading one leaves
/// nothing of it and everything else.
pub proof fn law_columns_are_independent(
    m: WorldModel,
    cx: int,
    cz: int,
    chunk: ChunkModel,
    x: int,
    y: int,
    z: int,
)
    ensures
        ({
            let loaded = WorldModel { chunks: m.chunks.insert((cx, cz), chunk), ..m };
            let unloaded = WorldModel { chunks: m.chunks.remove((cx, cz)), ..m };
            if 16 * cx <= x < 16 * cx + 16 && 16 * cz <= z < 16 * cz + 16 {
                unloaded.block(x, y, z) is None
            } else {
                loaded.block(x, y, z) == m.block(x, y, z) && unloaded.block(x, y, z) == m.block(
                    x,
                    y,
                    z,
                )
            }
        }),
{
    if 16 * cx <= x < 16 * cx + 16 && 16 * cz <= z < 16 * cz + 16 {
        assert(x / 16 == cx && z / 16 == cz);
    } else {
        assert(x / 16 != cx || z / 16 != cz);
    }
}

/// Only layers of the dimension have blocks: from its lowest layer up to, and
/// without, its height above that.
pub proof fn law_blocks_lie_within_the_dimension(m: WorldModel, x: int, y: int, z: int)
    requires
        m.block(x, y, z) is Some,
    ensures
        0 <= y - m.dimension.min_y < m.dimension.height,
{
}

/// A block can be set exactly where its column is loaded and reaches its layer,
/// and where every entry of the section has a value.
pub proof fn law_blocks_are_set_where_they_are_loaded(
    m: WorldModel,
    cx: int,
    cz: int,
    s: int,
    lx: int,
    ly: int,
    lz: int,
    state: u32,
)
    requires
        m.dimension.min_y as int % 16 == 0,
        0 <= lx < 16,
        0 <= ly < 16,
        0 <= lz < 16,
    ensures
        m.set_block(16 * cx + lx, m.dimension.min_y + 16 * s + ly, 16 * cz + lz, state) is Ok
            <==> m.chunks.contains_key((cx, cz)) && 0 <= s < m.chunks[(cx, cz)].sections.len()
            && forall|i: nat|
            i < 4096 ==> (#[trigger] m.chunks[(cx, cz)].sections[s].block_states.value(i)) is Some,
{
    let (x, y, z) = (16 * cx + lx, m.dimension.min_y + 16 * s + ly, 16 * cz + lz);
    let base = m.dimension.min_y as int;
    assert(x / 16 == cx && x % 16 == lx);
    assert(z / 16 == cz && z % 16 == lz);
    assert((y - base) / 16 == s);
    assert(y % 16 == ly);
    let place = ((ly * 16 + lz) * 16 + lx) as nat;
    assert(place < 4096);
    law_values_are_kept_in_the_fewest_bits(
        m.chunks[(cx, cz)].sections[s].block_states,
        4096,
        place,
        state,
    );
}

/// The parts of a record.
proof fn lemma_record_parts(r: int, state: int, lx: int, ly: int, lz: int)
    requires
        0 <= lx < 16,
        0 <= ly < 16,
        0 <= lz < 16,
        r == state * 4096 + lx * 256 + lz * 16 + ly,
        state >= 0,
    ensures
        r / 256 % 16 == lx,
        r / 16 % 16 == lz,
        r % 16 == ly,
        r / 4096 == state,
{
    let row = (state * 16 + lx) * 16 + lz;
    let column = state * 16 + lx;
    let low = lz * 16 + ly;
    lemma_quotient(r, row, ly, 16);
    lemma_quotient(row, column, lz, 16);
    lemma_quotient(r, column, low, 256);
    lemma_quotient(column, state, lx, 16);
    lemma_quotient(r, state, lx * 256 + low, 4096);
}

/// Quotient and remainder of a number that is written out.
proof fn lemma_quotient(n: int, q: int, rest: int, d: int)
    requires
        n == q * d + rest,
        0 <= rest < d,
    ensures
        n / d == q,
        n % d == rest,
{
    assert(n / d == q && n % d == rest) by (nonlinear_arith)
        requires
            n == q * d + rest,
            0 <= rest < d,
    ;
}

/// A change of one record sets one block.
proof fn lemma_one_record(
    m: WorldModel,
    at: SectionPosition,
    records: Seq<i32>,
    i: int,
    x: int,
    y: int,
    z: int,
    state: u32,
)
    requires
        i == records.len() - 1,
        0 <= i,
        records[i] >= 0,
        x == at.x * 16 + records[i] as int / 256 % 16,
        y == at.y * 16 + records[i] as int % 16,
        z == at.z * 16 + records[i] as int / 16 % 16,
        state == records[i] as int / 4096,
    ensures
        m.set_blocks(at, records, i).1 is None <==> m.set_block(x, y, z, state) is Ok,
        m.set_block(x, y, z, state) is Ok ==> m.set_blocks(at, records, i).0 == m.set_block(
            x,
            y,
            z,
            state,
        )->Ok_0,
{
    let outcome = m.set_block(x, y, z, state);
    if outcome is Ok {
        let next = outcome->Ok_0;
        assert(next.set_blocks(at, records, i + 1) == (next, None::<Seq<char>>));
    }
}

/// A record of a multi-block change holds a state, then four bits of each offset
/// in its section: x, z and y from the high end. The block at that offset of that
/// section takes the state.
pub proof fn law_records_address_a_block_of_their_section(
    m: WorldModel,
    at: SectionPosition,
    record: i32,
    state: u32,
    lx: int,
    ly: int,
    lz: int,
)
    requires
        m.valid(),
        0 <= lx < 16,
        0 <= ly < 16,
        0 <= lz < 16,
        record == state * 4096 + lx * 256 + lz * 16 + ly,
        record >= 0,
    ensures
        m.set_blocks(at, seq![record], 0).1 is None <==> m.set_block(
            16 * at.x + lx,
            16 * at.y + ly,
            16 * at.z + lz,
            state,
        ) is Ok,
        m.set_blocks(at, seq![record], 0).1 is None && 0 <= 16 * at.y + ly - m.dimension.min_y
            < m.dimension.height ==> m.set_blocks(at, seq![record], 0).0.block(
            16 * at.x + lx,
            16 * at.y + ly,
            16 * at.z + lz,
        ) == Some(state),
{
    let (x, y, z) = (16 * at.x + lx, 16 * at.y + ly, 16 * at.z + lz);
    lemma_record_parts(record as int, state as int, lx, ly, lz);
    lemma_one_record(m, at, seq![record], 0, x, y, z, state);
    if m.set_block(x, y, z, state) is Ok && m.dimension.min_y <= y < m.dimension.min_y
        + m.dimension.height {
        law_set_block_reads_back(m, x, y, z, state);
    }
}

/// However many records a multi-block change has, and wherever it stops, no block
/// outside its section changes.
pub proof fn law_multi_block_changes_stay_in_their_section(
    m: WorldModel,
    at: SectionPosition,
    records: Seq<i32>,
    i: int,
    x: int,
    y: int,
    z: int,
)
    requires
        m.valid(),
        !(16 * at.x <= x < 16 * at.x + 16 && 16 * at.y <= y < 16 * at.y + 16 && 16 * at.z <= z < 16
            * at.z + 16),
    ensures
        m.set_blocks(at, records, i).0.block(x, y, z) == m.block(x, y, z),
    decreases records.len() - i,
{
    if 0 <= i < records.len() && records[i] >= 0 {
        let r = records[i] as int;
        let (px, py, pz) = (at.x * 16 + r / 256 % 16, at.y * 16 + r % 16, at.z * 16 + r / 16 % 16);
        let state = (r / 4096) as u32;
        if m.set_block(px, py, pz, state) is Ok {
            let next = m.set_block(px, py, pz, state)->Ok_0;
            law_set_block_leaves_the_rest(m, px, py, pz, state, x, y, z);
            law_set_block_keeps_validity(m, px, py, pz, state);
            law_multi_block_changes_stay_in_their_section(next, at, records, i + 1, x, y, z);
        }
    }
}

/// Records are applied one after the other: of two that address one block, the
/// later decides. Here the last record of a change is one that was applied.
pub proof fn law_the_last_record_decides(
    m: WorldModel,
    at: SectionPosition,
    records: Seq<i32>,
    i: int,
    state: u32,
    lx: int,
    ly: int,
    lz: int,
)
    requires
        m.valid(),
        0 <= i < records.len(),
        0 <= lx < 16,
        0 <= ly < 16,
        0 <= lz < 16,
        records.last() == state * 4096 + lx * 256 + lz * 16 + ly,
        m.set_blocks(at, records, i).1 is None,
        0 <= 16 * at.y + ly - m.dimension.min_y < m.dimension.height,
    ensures
        m.set_blocks(at, records, i).0.block(16 * at.x + lx, 16 * at.y + ly, 16 * at.z + lz) == Some(
            state,
        ),
    decreases records.len() - i,
{
    let r = records[i] as int;
    let (px, py, pz) = (at.x * 16 + r / 256 % 16, at.y * 16 + r % 16, at.z * 16 + r / 16 % 16);
    let s = (r / 4096) as u32;
    if i < records.len() - 1 {
        let next = lemma_first_record(m, at, records, i);
        law_set_block_keeps_validity(m, px, py, pz, s);
        law_the_last_record_decides(next, at, records, i + 1, state, lx, ly, lz);
    } else {
        lemma_record_parts(r, state as int, lx, ly, lz);
        lemma_one_record(m, at, records, i, px, py, pz, state);
        law_set_block_reads_back(m, px, py, pz, state);
    }
}

/// The world after the first record of a change that goes on.
proof fn lemma_first_record(m: WorldModel, at: SectionPosition, records: Seq<i32>, i: int) -> (
    next: WorldModel)
    requires
        0 <= i < records.len(),
        m.set_blocks(at, records, i).1 is None,
    ensures
        ({
            let r = records[i] as int;
            let outcome = m.set_block(
                at.x * 16 + r / 256 % 16,
                at.y * 16 + r % 16,
                at.z * 16 + r / 16 % 16,
                (r / 4096) as u32,
            );
            outcome is Ok && next == outcome->Ok_0
        }),
        next.dimension == m.dimension,
        m.set_blocks(at, records, i) == next.set_blocks(at, records, i + 1),
{
    let r = records[i] as int;
    m.set_block(
        at.x * 16 + r / 256 % 16,
        at.y * 16 + r % 16,
        at.z * 16 + r / 16 % 16,
        (r / 4096) as u32,
    )->Ok_0
}

/// Packed values stand side by side in a long, the first in the low bits, and no
/// value is cut between two longs: entry `k * (64 / bits) + j` is what stands at
/// bit `j * bits` of long `k`.
pub proof fn law_entries_fill_longs_from_the_low_end(
    bits: nat,
    data: Seq<u64>,
    k: int,
    j: nat,
    low: nat,
    value: nat,
    high: nat,
)
    requires
        1 <= bits <= 32,
        0 <= k < data.len(),
        j < 64nat / bits,
        low < pow2(j * bits),
        value < pow2(bits),
        data[k] == low + value * pow2(j * bits) + high * (pow2(j * bits) * pow2(bits)),
    ensures
        unpacked(bits, data, (k * (64nat / bits) + j) as nat) == Some(value as u32),
{
    let per = 64nat / bits;
    let index = (k * per + j) as nat;
    assert(index / per == k && index % per == j) by (nonlinear_arith)
        requires
            index == k * per + j,
            0 <= j < per,
            0 <= k,
    ;
    let a = pow2(j * bits);
    let b = pow2(bits);
    lemma_pow2_pos(j * bits);
    lemma_pow2_pos(bits);
    let long = data[k] as nat;
    assert(long / a == value + high * b) by (nonlinear_arith)
        requires
            long == low + value * a + high * (a * b),
            0 <= low < a,
    ;
    assert((value + high * b) % b == value) by (nonlinear_arith)
        requires
            0 <= value < b,
    ;
}

/// A palette gives each index the value that stands there; an index past it, or
/// past the data, gives nothing. One value stands for every entry.
pub proof fn law_palettes_are_looked_up(
    bits: u8,
    palette: Seq<u32>,
    data: Seq<u64>,
    only: u32,
    i: nat,
)
    ensures
        ContainerModel::Single(only).value(i) == Some(only),
        (ContainerModel::Direct { bits, data }).value(i) == unpacked(bits as nat, data, i),
        match unpacked(bits as nat, data, i) {
            Some(at) => (ContainerModel::Indirect { bits, palette, data }).value(i) == (if at
                < palette.len() {
                Some(palette[at as int])
            } else {
                None
            }),
            None => (ContainerModel::Indirect { bits, palette, data }).value(i) is None,
        },
{
}

} // verus!
