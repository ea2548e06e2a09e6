//! The chain status job: the best block and the top finalized block, and the reorganizations
//! seen when the best block changes.
use vstd::prelude::*;

use crate::primitives::{hash_eq, BlockHash, BlockNumber};

verus! {

/// The length of the reorganization that a new best block `best` (with `best_parent` and
/// `best_number`) makes after `previous_best`: none when there was no best block before,
/// when the best block did not change or is a child of the previous one, or when the common
/// ancestor is unknown; otherwise the distance from the common ancestor to the new best
/// block, when it is not zero. A common ancestor above the best block cannot happen on a real
/// chain; the distance is then computed with wrapping subtraction, as a release build does.
pub open spec fn reorg_length(
    previous_best: Option<[u8; 32]>,
    best: [u8; 32],
    best_parent: [u8; 32],
    best_number: u32,
    lca_number: Option<u32>,
) -> Option<u32> {
    match previous_best {
        None => None,
        Some(prev) => if best_parent == prev || best == prev {
            None
        } else {
            match lca_number {
                None => None,
                Some(l) => if best_number.wrapping_sub(l) == 0 {
                    None
                } else {
                    Some(best_number.wrapping_sub(l))
                },
            }
        },
    }
}

/// Detects a reorganization. `lca` gives the number of the lowest common ancestor of two
/// blocks, when the chain knows it; it is asked only when the new best block is neither the
/// previous one nor its child.
pub fn detect_reorgs<F: Fn(BlockHash, BlockHash) -> Option<u32>>(
    previous_best: Option<BlockHash>,
    best: BlockHash,
    best_parent: BlockHash,
    best_number: BlockNumber,
    lca: F,
) -> (res: Option<u32>)
    requires
        forall|a: BlockHash, b: BlockHash| #[trigger] lca.requires((a, b)),
    ensures
        match previous_best {
            None => res is None,
            Some(prev) => if best_parent@ == prev@ || best@ == prev@ {
                res is None
            } else {
                exists|l: Option<u32>|
                    lca.ensures((best, prev), l) && res == reorg_length(
                        Some(prev@),
                        best@,
                        best_parent@,
                        best_number,
                        l,
                    )
            },
        },
{
    let prev = match previous_best {
        None => return None,
        Some(prev) => prev,
    };
    if hash_eq(&best_parent, &prev) || hash_eq(&best, &prev) {
        return None;
    }
    let l = lca(best, prev);
    let res = match l {
        None => None,
        Some(n) => {
            let len = best_number.wrapping_sub(n);
            if len == 0 {
                None
            } else {
                Some(len)
            }
        },
    };
    assert(lca.ensures((best, prev), l) && res == reorg_length(
        Some(prev@),
        best@,
        best_parent@,
        best_number,
        l,
    ));
    res
}

/// What a new best block is reported as: its number, and the length of the reorganization
/// it made, if any.
#[derive(Clone, Copy, Debug, PartialEq, Eq, Structural)]
pub struct BestBlockReport {
    pub best_block: BlockNumber,
    pub reorg: Option<u32>,
}

/// The state of the chain status job: the best block seen last.
pub struct ChainStatusJob {
    previous_best: Option<BlockHash>,
}

impl ChainStatusJob {
    pub closed spec fn previous_best(&self) -> Option<[u8; 32]> {
        match self.previous_best {
            Some(h) => Some(h@),
            None => None,
        }
    }

    /// The best block seen last.
    pub closed spec fn previous_best_block(&self) -> Option<BlockHash> {
        self.previous_best
    }

    pub fn new() -> (res: ChainStatusJob)
        ensures
            res.previous_best() is None,
    {
        ChainStatusJob { previous_best: None }
    }

    /// A block became the best one: report its number and the reorganization, and remember
    /// it.
    pub fn on_best_block<F: Fn(BlockHash, BlockHash) -> Option<u32>>(
        &mut self,
        hash: BlockHash,
        parent: BlockHash,
        number: BlockNumber,
        lca: F,
    ) -> (res: BestBlockReport)
        requires
            forall|a: BlockHash, b: BlockHash| #[trigger] lca.requires((a, b)),
        ensures
            res.best_block == number,
            final(self).previous_best() == Some(hash@),
            match old(self).previous_best_block() {
                None => res.reorg is None,
                Some(prev) => if parent@ == prev@ || hash@ == prev@ {
                    res.reorg is None
                } else {
                    exists|l: Option<u32>|
                        lca.ensures((hash, prev), l) && res.reorg == reorg_length(
                            Some(prev@),
                            hash@,
                            parent@,
                            number,
                            l,
                        )
                },
            },
    {
        let reorg = detect_reorgs(self.previous_best, hash, parent, number, lca);
        self.previous_best = Some(hash);
        BestBlockReport { best_block: number, reorg }
    }
}

} // verus!
