//! Blocks and the states between them.
use vstd::prelude::*;

verus! {

/// The number of a block.
#[derive(Debug, Clone, Copy, PartialEq, Eq, Structural, Hash)]
pub struct BlockNumber(pub u64);

impl BlockNumber {
    /// The number of the following block.
    pub fn next(&self) -> (r: BlockNumber)
        requires
            self.0 < u64::MAX,
        ensures
            r.0 == self.0 + 1,
    {
        BlockNumber(self.0 + 1)
    }
}

impl Default for BlockNumber {
    /// The number of the first block.
    fn default() -> (r: BlockNumber)
        ensures
            r.0 == 0,
    {
        BlockNumber(0)
    }
}

/// A state, by its place among the blocks: state `n` holds the effects of the blocks before block
/// `n` and of no other.
#[derive(Debug, Clone, Copy, PartialEq, Eq, Structural, Hash)]
pub struct StateNumber(pub BlockNumber);

impl StateNumber {
    /// Whether block `block_number` is part of this state.
    pub open spec fn covers(self, block_number: BlockNumber) -> bool {
        block_number.0 < self.0.0
    }

    /// The state at the beginning of the block.
    pub fn right_before_block(block_number: BlockNumber) -> (r: StateNumber)
        ensures
            r.0 == block_number,
            forall|b: BlockNumber| #[trigger] r.covers(b) <==> b.0 < block_number.0,
    {
        StateNumber(block_number)
    }

    /// The state at the end of the block.
    pub fn right_after_block(block_number: BlockNumber) -> (r: StateNumber)
        requires
            block_number.0 < u64::MAX,
        ensures
            r.0.0 == block_number.0 + 1,
            forall|b: BlockNumber| #[trigger] r.covers(b) <==> b.0 <= block_number.0,
    {
        StateNumber(block_number.next())
    }

    /// Whether the state comes before the effects of the block.
    pub fn is_before(&self, block_number: BlockNumber) -> (r: bool)
        ensures
            r == (self.0.0 <= block_number.0),
            r == !self.covers(block_number),
    {
        self.0.0 <= block_number.0
    }

    /// Whether the state holds the effects of the block.
    pub fn is_after(&self, block_number: BlockNumber) -> (r: bool)
        ensures
            r == (block_number.0 < self.0.0),
            r == self.covers(block_number),
    {
        !self.is_before(block_number)
    }

    /// The first block that the state does not hold.
    pub fn block_after(&self) -> (r: BlockNumber)
        ensures
            r == self.0,
            forall|b: BlockNumber| #[trigger] self.covers(b) <==> b.0 < r.0,
    {
        self.0
    }
}

/// A state holds the blocks before its number, and no other.
pub proof fn law_states_cover_earlier_blocks(state: StateNumber, block_number: BlockNumber)
    ensures
        state.covers(block_number) <==> block_number.0 < state.0.0,
{
}

} // verus!
