//! The chain store: an ordered, append-only sequence of accepted blocks,
//! owned by the local node, that enforces the linkage invariant and a
//! capacity bound. A failed append leaves the chain unchanged.

use vstd::prelude::*;

use crate::block::Block;
use crate::errors::EssexError;

verus! {

/// The number of blocks the chain holds at most.
pub const CHAIN_CAPACITY: usize = 20;

/// The linkage invariant: every block after the first names its predecessor.
pub open spec fn chain_linked(c: Seq<Block>) -> bool {
    forall|i: int| 1 <= i < c.len() ==> (#[trigger] c[i]).prev_hash@ == c[i - 1].block_hash@
}

/// Whether `b` links onto the chain `c`: an empty chain accepts any block
/// (the genesis case); otherwise `b` must name the tip.
pub open spec fn chain_accepts(c: Seq<Block>, b: Block) -> bool {
    c.len() == 0 || b.prev_hash@ == c.last().block_hash@
}

/// What appending `b` to the chain `c` does: the chain afterwards, and the
/// reported result. A block that does not link is refused; a full chain
/// stays unchanged and reports `false`; otherwise the block is pushed.
pub open spec fn spec_add_block(c: Seq<Block>, b: Block) -> (Seq<Block>, Result<
    bool,
    EssexError,
>) {
    if !chain_accepts(c, b) {
        (c, Err(EssexError::LinkageMismatch))
    } else if c.len() >= CHAIN_CAPACITY {
        (c, Ok(false))
    } else {
        (c.push(b), Ok(true))
    }
}

/// The local node's ledger.
#[derive(Debug)]
pub struct Blockchain {
    pub chain: Vec<Block>,
}

impl Default for Blockchain {
    /// An empty chain.
    fn default() -> (r: Self)
        ensures
            r.chain@.len() == 0,
    {
        Blockchain { chain: Vec::new() }
    }
}

impl Blockchain {
    /// The chain is linked throughout and within capacity.
    pub open spec fn well_formed(self) -> bool {
        &&& chain_linked(self.chain@)
        &&& self.chain@.len() <= CHAIN_CAPACITY
    }

    /// An empty, well-formed chain.
    pub fn new() -> (r: Self)
        ensures
            r.chain@.len() == 0,
            r.well_formed(),
    {
        Self::default()
    }

    /// The most recently appended block, or nothing while the chain is
    /// empty.
    pub fn tip(&self) -> (r: Option<&Block>)
        ensures
            r is None <==> self.chain@.len() == 0,
            r matches Some(b) ==> *b == self.chain@.last(),
    {
        if self.chain.len() == 0 {
            None
        } else {
            Some(&self.chain[self.chain.len() - 1])
        }
    }

    /// Appends `block` to the chain. The block must already be accepted
    /// (`valid`). An empty chain takes it unconditionally; otherwise it must
    /// link to the tip, or the append fails with `LinkageMismatch`. A chain
    /// at capacity reports `false` and stays as it is. Every path except the
    /// successful push leaves the chain unchanged.
    pub fn add_block(&mut self, block: Block) -> (r: Result<bool, EssexError>)
        requires
            old(self).well_formed(),
            block.valid,
        ensures
            final(self).well_formed(),
            old(self).chain@.is_prefix_of(final(self).chain@),
            (final(self).chain@, r) == spec_add_block(old(self).chain@, block),
            r == Err::<bool, EssexError>(EssexError::LinkageMismatch) <==> !chain_accepts(
                old(self).chain@,
                block,
            ),
            r == Ok::<bool, EssexError>(false) <==> chain_accepts(old(self).chain@, block) && old(
                self,
            ).chain@.len() >= CHAIN_CAPACITY,
            r == Ok::<bool, EssexError>(true) <==> chain_accepts(old(self).chain@, block) && old(
                self,
            ).chain@.len() < CHAIN_CAPACITY,
            r == Ok::<bool, EssexError>(true) ==> final(self).chain@ == old(self).chain@.push(
                block,
            ),
            r != Ok::<bool, EssexError>(true) ==> final(self).chain@ == old(self).chain@,
    {
        let n = self.chain.len();
        if n > 0 {
            let linked = block.prev_hash == self.chain[n - 1].block_hash;
            if !linked {
                return Err(EssexError::LinkageMismatch);
            }
        }
        if n >= CHAIN_CAPACITY {
            return Ok(false);
        }
        self.chain.push(block);
        assert forall|i: int| 1 <= i < self.chain@.len() implies (#[trigger] self.chain@[i]).prev_hash@
            == self.chain@[i - 1].block_hash@ by {
            if i < self.chain@.len() - 1 {
                assert(old(self).chain@[i].prev_hash@ == old(self).chain@[i - 1].block_hash@);
            }
        }
        Ok(true)
    }
}

/// The linkage law: in a well-formed chain, every block after the first
/// names the block before it.
pub proof fn lemma_chain_linked(bc: Blockchain, i: int)
    requires
        bc.well_formed(),
        1 <= i < bc.chain@.len(),
    ensures
        bc.chain@[i].prev_hash@ == bc.chain@[i - 1].block_hash@,
{
}

/// The single-writer law: two candidate blocks that both link onto the same
/// chain, where the second does not name the first as its parent (their
/// identifiers are fresh and distinct), cannot both be appended. The first
/// append succeeds; the second then fails with `LinkageMismatch` and leaves
/// the chain as the first append left it.
pub proof fn lemma_single_writer(c: Seq<Block>, b1: Block, b2: Block)
    requires
        chain_accepts(c, b1),
        chain_accepts(c, b2),
        c.len() < CHAIN_CAPACITY,
        b2.prev_hash@ != b1.block_hash@,
    ensures
        spec_add_block(c, b1) == (c.push(b1), Ok::<bool, EssexError>(true)),
        spec_add_block(c.push(b1), b2) == (
            c.push(b1),
            Err::<bool, EssexError>(EssexError::LinkageMismatch),
        ),
{
    assert(c.push(b1).last() == b1);
}

} // verus!
