//! What the proposal logic needs to know about the chain, and an in-memory chain that
//! provides it.
use vstd::prelude::*;

use crate::primitives::{block_id_eq, hash_eq, BlockHash, BlockId, BlockNumber};

verus! {

/// Answers questions about the local view of the chain.
pub trait ChainInfoProvider {
    /// The finalized block at height `n`, if it is known.
    spec fn finalized_at(&self, n: u32) -> Option<([u8; 32], u32)>;

    /// The highest finalized block.
    spec fn highest_finalized(&self) -> ([u8; 32], u32);

    /// Whether the block has been imported.
    spec fn is_imported(&self, b: ([u8; 32], u32)) -> bool;

    /// The hash of the parent of an imported block.
    spec fn parent_hash(&self, b: ([u8; 32], u32)) -> Option<[u8; 32]>;

    fn get_highest_finalized(&self) -> (res: BlockId)
        ensures
            res@ == self.highest_finalized(),
    ;

    fn get_finalized_at(&self, n: BlockNumber) -> (res: Result<BlockId, ()>)
        ensures
            match res {
                Ok(b) => self.finalized_at(n) == Some(b@),
                Err(()) => self.finalized_at(n) is None,
            },
    ;

    fn is_block_imported(&self, b: &BlockId) -> (res: bool)
        ensures
            res == self.is_imported(b@),
    ;

    fn get_parent_hash(&self, b: &BlockId) -> (res: Result<BlockHash, ()>)
        ensures
            match res {
                Ok(h) => self.parent_hash(b@) == Some(h@),
                Err(()) => self.parent_hash(b@) is None,
            },
    ;
}

/// The record of block `b` among the imported `blocks` (the latest one when there are
/// several): its parent's hash, if it has a parent.
pub open spec fn lookup(s: Seq<(([u8; 32], u32), Option<[u8; 32]>)>, b: ([u8; 32], u32)) -> Option<
    Option<[u8; 32]>,
>
    decreases s.len(),
{
    if s.len() == 0 {
        None
    } else if s.last().0 == b {
        Some(s.last().1)
    } else {
        lookup(s.drop_last(), b)
    }
}

/// A chain kept in memory: the imported blocks with their parents, and the finalized
/// blocks, one per height from the genesis up.
pub struct InMemoryChainInfo {
    blocks: Vec<(BlockId, Option<BlockHash>)>,
    finalized: Vec<BlockId>,
}

/// The view of the imported blocks.
pub open spec fn blocks_view(s: Seq<(BlockId, Option<BlockHash>)>) -> Seq<
    (([u8; 32], u32), Option<[u8; 32]>),
> {
    s.map_values(
        |e: (BlockId, Option<BlockHash>)|
            (
                e.0@,
                match e.1 {
                    Some(h) => Some(h@),
                    None => None,
                },
            ),
    )
}

impl InMemoryChainInfo {
    #[verifier::type_invariant]
    spec fn inv(self) -> bool {
        &&& 1 <= self.finalized@.len() <= u32::MAX
        &&& forall|i: int| 0 <= i < self.finalized@.len() ==> #[trigger] self.finalized@[i].number == i
    }

    /// The imported blocks, with the hashes of their parents.
    pub closed spec fn imported(&self) -> Seq<(([u8; 32], u32), Option<[u8; 32]>)> {
        blocks_view(self.blocks@)
    }

    /// The finalized blocks, the one at height `n` at position `n`.
    pub closed spec fn finalized(&self) -> Seq<([u8; 32], u32)> {
        self.finalized@.map_values(|b: BlockId| b@)
    }

    /// A chain holding only the genesis block, which is imported and finalized.
    pub fn new(genesis: BlockHash) -> (res: InMemoryChainInfo)
        ensures
            res.imported() == seq![((genesis@, 0u32), None::<[u8; 32]>)],
            res.finalized() == seq![(genesis@, 0u32)],
    {
        let id = BlockId::new(genesis, 0);
        let mut blocks = Vec::new();
        blocks.push((id, None));
        let mut finalized = Vec::new();
        finalized.push(id);
        let res = InMemoryChainInfo { blocks, finalized };
        assert(res.imported() =~= seq![((genesis@, 0u32), None::<[u8; 32]>)]);
        assert(res.finalized() =~= seq![(genesis@, 0u32)]);
        res
    }

    /// Records an imported block and the hash of its parent.
    pub fn import(&mut self, block: BlockId, parent: BlockHash)
        ensures
            final(self).imported() == old(self).imported().push((block@, Some(parent@))),
            final(self).finalized() == old(self).finalized(),
    {
        proof {
            use_type_invariant(&*self);
        }
        let mut blocks = Vec::new();
        std::mem::swap(&mut blocks, &mut self.blocks);
        blocks.push((block, Some(parent)));
        std::mem::swap(&mut blocks, &mut self.blocks);
        assert(self.imported() =~= old(self).imported().push((block@, Some(parent@))));
    }

    /// Finalizes `block` if it is the next height above the highest finalized block; tells
    /// whether it did.
    pub fn finalize_next(&mut self, block: BlockId) -> (res: bool)
        ensures
            res == (block.number == old(self).finalized().len() && old(self).finalized().len()
                < u32::MAX),
            res ==> final(self).finalized() == old(self).finalized().push(block@),
            !res ==> final(self).finalized() == old(self).finalized(),
            final(self).imported() == old(self).imported(),
    {
        proof {
            use_type_invariant(&*self);
        }
        let len = self.finalized.len();
        if len < 4294967295 && block.number as usize == len {
            let mut finalized = Vec::new();
            finalized.push(BlockId::new(BlockHash([0u8; 32]), 0));
            std::mem::swap(&mut finalized, &mut self.finalized);
            finalized.push(block);
            std::mem::swap(&mut finalized, &mut self.finalized);
            assert(self.finalized() =~= old(self).finalized().push(block@));
            true
        } else {
            false
        }
    }
}

impl ChainInfoProvider for InMemoryChainInfo {
    open spec fn finalized_at(&self, n: u32) -> Option<([u8; 32], u32)> {
        if n < self.finalized().len() {
            Some(self.finalized()[n as int])
        } else {
            None
        }
    }

    open spec fn highest_finalized(&self) -> ([u8; 32], u32) {
        self.finalized().last()
    }

    open spec fn is_imported(&self, b: ([u8; 32], u32)) -> bool {
        lookup(self.imported(), b) is Some
    }

    open spec fn parent_hash(&self, b: ([u8; 32], u32)) -> Option<[u8; 32]> {
        match lookup(self.imported(), b) {
            Some(Some(p)) => Some(p),
            _ => None,
        }
    }

    fn get_highest_finalized(&self) -> (res: BlockId) {
        proof {
            use_type_invariant(self);
        }
        let len = self.finalized.len();
        self.finalized[len - 1]
    }

    fn get_finalized_at(&self, n: BlockNumber) -> (res: Result<BlockId, ()>) {
        proof {
            use_type_invariant(self);
        }
        if (n as usize) < self.finalized.len() {
            Ok(self.finalized[n as usize])
        } else {
            Err(())
        }
    }

    fn is_block_imported(&self, b: &BlockId) -> (res: bool) {
        match self.find(b) {
            Some(_) => true,
            None => false,
        }
    }

    fn get_parent_hash(&self, b: &BlockId) -> (res: Result<BlockHash, ()>) {
        match self.find(b) {
            Some(Some(p)) => Ok(p),
            _ => Err(()),
        }
    }
}

impl InMemoryChainInfo {
    /// The record of an imported block: the hash of its parent, if it has one.
    fn find(&self, b: &BlockId) -> (res: Option<Option<BlockHash>>)
        ensures
            match res {
                Some(Some(p)) => lookup(self.imported(), b@) == Some(Some(p@)),
                Some(None) => lookup(self.imported(), b@) == Some(None::<[u8; 32]>),
                None => lookup(self.imported(), b@) is None,
            },
    {
        let mut i: usize = self.blocks.len();
        assert(self.blocks@.subrange(0, i as int) =~= self.blocks@);
        while i > 0
            invariant
                0 <= i <= self.blocks@.len(),
                lookup(self.imported(), b@) == lookup(blocks_view(self.blocks@.subrange(0, i as int)), b@),
            decreases i,
        {
            let ghost prefix = self.blocks@.subrange(0, i as int);
            assert(blocks_view(prefix).drop_last() =~= blocks_view(self.blocks@.subrange(0, i - 1)));
            let (id, parent) = self.blocks[i - 1];
            if block_id_eq(&id, b) {
                proof {
                    assert(blocks_view(prefix).last() == blocks_view(self.blocks@)[i - 1]);
                }
                return Some(parent);
            }
            i = i - 1;
        }
        proof {
            assert(blocks_view(self.blocks@.subrange(0, 0)) =~= Seq::empty());
        }
        None
    }
}

} // verus!
