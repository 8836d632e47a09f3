//! What block states are made of: which boxes they fill and how slippery they
//! are. The tables come from the game's data; this looks things up in them.
use vstd::prelude::*;

verus! {

/// The default block friction shared by nearly every block: six tenths, as
/// double-precision bits.
pub const DEFAULT_FRICTION: u64 = 0x3FE3_3333_3333_3333;

/// A range of block states with a friction of its own.
#[derive(Debug, Clone, Copy)]
pub struct FrictionOverride {
    pub first: u32,
    pub last: u32,
    /// Double-precision bits.
    pub friction: u64,
}

/// A run of boxes.
#[derive(Debug, Clone, Copy, PartialEq, Eq, Structural)]
pub struct BoxRange {
    pub start: u32,
    pub count: u32,
}

/// The tables of block states.
#[derive(Debug)]
pub struct BlockTables {
    /// The shape of each state.
    pub state_shapes: Vec<u32>,
    /// The boxes of each shape.
    pub shape_ranges: Vec<BoxRange>,
    /// How many boxes there are.
    pub box_count: usize,
    pub friction_overrides: Vec<FrictionOverride>,
}

/// The friction of a state: that of the first range that holds it, or the
/// default.
pub open spec fn friction_of(overrides: Seq<FrictionOverride>, state_id: u32) -> u64
    decreases overrides.len(),
{
    if overrides.len() == 0 {
        DEFAULT_FRICTION
    } else if overrides[0].first <= state_id <= overrides[0].last {
        overrides[0].friction
    } else {
        friction_of(overrides.drop_first(), state_id)
    }
}

impl BlockTables {
    /// The boxes of a state, if it is known and they are there.
    pub open spec fn boxes_of(self, state_id: u32) -> Option<BoxRange> {
        if state_id >= self.state_shapes@.len() {
            None
        } else {
            let shape = self.state_shapes@[state_id as int];
            if shape >= self.shape_ranges@.len() {
                None
            } else {
                let range = self.shape_ranges@[shape as int];
                if range.start + range.count > self.box_count {
                    None
                } else {
                    Some(range)
                }
            }
        }
    }

    /// The friction of a block state, as double-precision bits.
    pub fn block_friction(&self, state_id: u32) -> (bits: u64)
        ensures
            bits == friction_of(self.friction_overrides@, state_id),
    {
        let mut i: usize = 0;
        let ghost all = self.friction_overrides@;
        assert(all.skip(0) =~= all);
        while i < self.friction_overrides.len()
            invariant
                i <= all.len(),
                all == self.friction_overrides@,
                friction_of(all.skip(i as int), state_id) == friction_of(all, state_id),
            decreases all.len() - i,
        {
            let range = self.friction_overrides[i];
            assert(all.skip(i as int)[0] == range);
            assert(all.skip(i as int).drop_first() =~= all.skip(i + 1));
            if range.first <= state_id && state_id <= range.last {
                return range.friction;
            }
            i += 1;
        }
        assert(all.skip(i as int) =~= Seq::empty());
        DEFAULT_FRICTION
    }

    /// The boxes of a block state, if it is known.
    pub fn collision_boxes(&self, state_id: u32) -> (range: Option<BoxRange>)
        ensures
            range == self.boxes_of(state_id),
    {
        if state_id as u64 >= self.state_shapes.len() as u64 {
            return None;
        }
        let shape: u32 = self.state_shapes[state_id as usize];
        if shape as u64 >= self.shape_ranges.len() as u64 {
            return None;
        }
        let range = self.shape_ranges[shape as usize];
        if range.start as u64 + range.count as u64 > self.box_count as u64 {
            return None;
        }
        Some(range)
    }
}

} // verus!
