//! The tips of the block DAG.

use vstd::prelude::*;
use crate::block::Block;
use crate::keymap::ByteKeyMap;

verus! {

/// Recording the same block twice records it once.
pub proof fn law_add_block_idempotent(tips: Set<[u8; 32]>, h: [u8; 32])
    ensures
        tips.insert(h).insert(h) == tips.insert(h),
{
    assert(tips.insert(h).insert(h) =~= tips.insert(h));
}

/// The set of block hashes recorded as tips.
pub struct BlockDAG {
    tips: ByteKeyMap<()>,
}

impl View for BlockDAG {
    type V = Set<[u8; 32]>;

    closed spec fn view(&self) -> Set<[u8; 32]> {
        self.tips@.dom()
    }
}

impl BlockDAG {
    /// The DAG's invariant.
    pub closed spec fn wf(&self) -> bool {
        self.tips.wf()
    }

    /// A DAG with no tips.
    pub fn new() -> (r: Self)
        ensures
            r.wf(),
            r@ == Set::<[u8; 32]>::empty(),
    {
        let r = BlockDAG { tips: ByteKeyMap::new() };
        assert(r@ =~= Set::<[u8; 32]>::empty());
        r
    }

    /// Records the hash of `block` as a tip.
    pub fn add_block(&mut self, block: &Block)
        requires
            old(self).wf(),
        ensures
            final(self).wf(),
            final(self)@ == old(self)@.insert(block.hash),
    {
        self.tips.insert(block.hash, ());
        assert(self@ =~= old(self)@.insert(block.hash));
    }

    /// Whether `hash` is recorded as a tip.
    pub fn is_tip(&self, hash: &[u8; 32]) -> (r: bool)
        requires
            self.wf(),
        ensures
            r == self@.contains(*hash),
    {
        self.tips.contains_key(hash)
    }
}

} // verus!
