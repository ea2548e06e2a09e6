//! How many of the blocks this node imported as its own got finalized, and how many became
//! hopeless because another block of the same number was finalized.
use std::collections::HashMap;

use vstd::prelude::*;

use crate::primitives::{hash_eq, BlockHash, BlockNumber};

verus! {

broadcast use vstd::std_specs::hash::group_hash_axioms;

/// The number of times `h` occurs in `s`.
pub open spec fn occurrences(s: Seq<[u8; 32]>, h: [u8; 32]) -> nat
    decreases s.len(),
{
    if s.len() == 0 {
        0
    } else {
        occurrences(s.drop_last(), h) + if s.last() == h {
            1nat
        } else {
            0nat
        }
    }
}

/// The finality rate bookkeeping: for each block number, the hashes of the own blocks
/// imported at it that are not settled yet. `Noop` keeps nothing.
pub enum FinalityRateMetrics {
    Prometheus { imported_cache: HashMap<u32, Vec<BlockHash>> },
    Noop,
}

/// The hashes of a list of blocks.
pub open spec fn hashes_of(v: Vec<BlockHash>) -> Seq<[u8; 32]> {
    v@.map_values(|h: BlockHash| h@)
}

impl FinalityRateMetrics {
    /// For each block number, the own blocks imported at it and not settled yet; `None` for
    /// metrics that keep nothing.
    pub closed spec fn cache(&self) -> Option<Map<u32, Seq<[u8; 32]>>> {
        match self {
            FinalityRateMetrics::Prometheus { imported_cache } => Some(
                Map::new(
                    |n: u32| imported_cache@.dom().contains(n),
                    |n: u32| hashes_of(imported_cache@[n]),
                ),
            ),
            FinalityRateMetrics::Noop => None,
        }
    }

    /// Bookkeeping when `enabled`, none otherwise.
    pub fn new(enabled: bool) -> (res: FinalityRateMetrics)
        ensures
            enabled ==> res.cache() == Some(Map::<u32, Seq<[u8; 32]>>::empty()),
            !enabled ==> res.cache() is None,
    {
        if enabled {
            let res = FinalityRateMetrics::Prometheus { imported_cache: HashMap::new() };
            assert(res.cache()->0 =~= Map::<u32, Seq<[u8; 32]>>::empty());
            res
        } else {
            FinalityRateMetrics::Noop
        }
    }

    /// Notes that an own block `hash` was imported at `number`.
    pub fn report_own_imported(&mut self, hash: BlockHash, number: BlockNumber)
        ensures
            match old(self).cache() {
                None => final(self).cache() is None,
                Some(c) => final(self).cache() == Some(
                    c.insert(
                        number,
                        if c.dom().contains(number) {
                            c[number].push(hash@)
                        } else {
                            seq![hash@]
                        },
                    ),
                ),
            },
    {
        match self {
            FinalityRateMetrics::Noop => {},
            FinalityRateMetrics::Prometheus { imported_cache } => {
                let ghost c = old(self).cache()->0;
                let hashes = match imported_cache.remove(&number) {
                    Some(mut hashes) => {
                        hashes.push(hash);
                        assert(hashes_of(hashes) =~= c[number].push(hash@));
                        hashes
                    },
                    None => {
                        let v = vec![hash];
                        assert(hashes_of(v) =~= seq![hash@]);
                        v
                    },
                };
                imported_cache.insert(number, hashes);
                proof {
                    let expected = c.insert(
                        number,
                        if c.dom().contains(number) {
                            c[number].push(hash@)
                        } else {
                            seq![hash@]
                        },
                    );
                    assert(self.cache()->0 =~= expected);
                }
            },
        }
    }

    /// Notes that block `hash` was finalized at `number`, and settles the own blocks imported
    /// at that number: returns how many of them were the finalized block and how many became
    /// hopeless.
    pub fn report_finalized(&mut self, hash: BlockHash, number: BlockNumber) -> (res: (u64, u64))
        ensures
            match old(self).cache() {
                None => final(self).cache() is None && res == (0u64, 0u64),
                Some(c) => final(self).cache() == Some(c.remove(number)) && if c.dom().contains(
                    number,
                ) {
                    res.0 == occurrences(c[number], hash@) && res.0 + res.1 == c[number].len()
                } else {
                    res == (0u64, 0u64)
                },
            },
    {
        match self {
            FinalityRateMetrics::Noop => (0, 0),
            FinalityRateMetrics::Prometheus { imported_cache } => {
                let ghost c = old(self).cache()->0;
                let res = match imported_cache.remove(&number) {
                    Some(hashes) => {
                        let mut finalized: u64 = 0;
                        let mut hopeless: u64 = 0;
                        let mut i: usize = 0;
                        while i < hashes.len()
                            invariant
                                i <= hashes.len(),
                                hashes.len() <= usize::MAX,
                                finalized == occurrences(hashes_of(hashes).subrange(0, i as int), hash@),
                                finalized + hopeless == i,
                            decreases hashes.len() - i,
                        {
                            proof {
                                assert(hashes_of(hashes).subrange(0, i + 1).drop_last() =~= hashes_of(
                                    hashes,
                                ).subrange(0, i as int));
                            }
                            if hash_eq(&hashes[i], &hash) {
                                finalized = finalized + 1;
                            } else {
                                hopeless = hopeless + 1;
                            }
                            i = i + 1;
                        }
                        assert(hashes_of(hashes).subrange(0, hashes.len() as int) =~= hashes_of(hashes));
                        (finalized, hopeless)
                    },
                    None => (0, 0),
                };
                proof {
                    assert(self.cache()->0 =~= c.remove(number));
                }
                res
            },
        }
    }
}

} // verus!
