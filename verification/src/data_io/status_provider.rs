//! Deciding what to do with a proposal given the local view of the chain.
use vstd::prelude::*;

use crate::data_io::chain_info::ChainInfoProvider;
use crate::data_io::proposal::{
    block_at, blocks_from, bottom_number, proposal_wf, AlephProposal, PendingProposalStatus,
    ProposalStatus, StatusView,
};
use crate::primitives::{hash_eq, BlockHash, BlockId, BlockNumber};

verus! {

/// The branch conflicts with the finalized chain: going up from the bottom of the branch
/// while the finalized blocks are known, some finalized block differs from the branch.
pub open spec fn hopeless_fork<C: ChainInfoProvider>(c: &C, p: (Seq<[u8; 32]>, u32)) -> bool {
    exists|i: int|
        #![trigger p.0[i]]
        0 <= i < p.0.len() && (forall|j: int|
            0 <= j < i ==> (#[trigger] c.finalized_at((bottom_number(p) + j) as u32)) is Some)
            && finalized_differs(c, (bottom_number(p) + i) as u32, p.0[i])
}

/// The finalized block at height `n` is known and its hash is not `h`.
pub open spec fn finalized_differs<C: ChainInfoProvider>(c: &C, n: u32, h: [u8; 32]) -> bool {
    match c.finalized_at(n) {
        Some(f) => f.0 != h,
        None => false,
    }
}

/// The finalized block at height `n` is known and its hash is `h`.
pub open spec fn finalized_is<C: ChainInfoProvider>(c: &C, n: u32, h: [u8; 32]) -> bool {
    match c.finalized_at(n) {
        Some(f) => f.0 == h,
        None => false,
    }
}

/// Every block of the branch above the lowest one has the previous block as its parent.
pub open spec fn branch_ancestry_correct<C: ChainInfoProvider>(
    c: &C,
    p: (Seq<[u8; 32]>, u32),
) -> bool {
    forall|i: int|
        1 <= i < p.0.len() ==> c.parent_hash(#[trigger] block_at(p, i)) == Some(p.0[i - 1])
}

/// The parent of the lowest block of the branch is the finalized block at its height.
pub open spec fn ancestor_finalized<C: ChainInfoProvider>(c: &C, p: (Seq<[u8; 32]>, u32)) -> bool {
    &&& c.parent_hash(block_at(p, 0)) is Some
    &&& c.finalized_at((bottom_number(p) - 1) as u32) is Some
    &&& c.parent_hash(block_at(p, 0))->0 == (c.finalized_at((bottom_number(p) - 1) as u32)->0).0
}

/// The status of proposal `p`, given its status so far (`old`), whether the header of its
/// top block verifies (consulted only when there is no status so far), and the chain.
pub open spec fn proposal_status<C: ChainInfoProvider>(
    c: &C,
    header_valid: bool,
    p: (Seq<[u8; 32]>, u32),
    old: Option<StatusView>,
) -> StatusView {
    let highest = c.highest_finalized().1;
    let to_finalize = blocks_from(p, highest + 1);
    if highest >= p.1 {
        None
    } else if hopeless_fork(c, p) {
        None
    } else {
        let old_status: StatusView = match old {
            Some(s) => s,
            None => if header_valid {
                Some(Err(PendingProposalStatus::PendingTopBlock))
            } else {
                Some(Err(PendingProposalStatus::TopBlockImportedButIncorrectBranch))
            },
        };
        match old_status {
            Some(Err(PendingProposalStatus::PendingTopBlock)) => {
                if c.is_imported(block_at(p, p.0.len() - 1)) {
                    if branch_ancestry_correct(c, p) {
                        if ancestor_finalized(c, p) {
                            Some(Ok(to_finalize))
                        } else {
                            Some(Err(PendingProposalStatus::TopBlockImportedButNotFinalizedAncestor))
                        }
                    } else {
                        Some(Err(PendingProposalStatus::TopBlockImportedButIncorrectBranch))
                    }
                } else {
                    Some(Err(PendingProposalStatus::PendingTopBlock))
                }
            },
            Some(Err(PendingProposalStatus::TopBlockImportedButNotFinalizedAncestor)) => {
                if ancestor_finalized(c, p) {
                    Some(Ok(to_finalize))
                } else {
                    Some(Err(PendingProposalStatus::TopBlockImportedButNotFinalizedAncestor))
                }
            },
            Some(Err(PendingProposalStatus::TopBlockImportedButIncorrectBranch)) => Some(
                Err(PendingProposalStatus::TopBlockImportedButIncorrectBranch),
            ),
            other => other,
        }
    }
}

/// A proposal is finalized only on top of the finalized chain: the blocks to finalize are
/// the branch's blocks from just above the highest finalized block up to its top block, with
/// consecutive numbers. (Stated for a status computed afresh or from a pending one, and for a
/// chain whose finalized blocks are at most as high as the highest finalized one.)
pub proof fn lemma_finalize_extends_finalized_chain<C: ChainInfoProvider>(
    c: &C,
    header_valid: bool,
    p: (Seq<[u8; 32]>, u32),
    old: Option<StatusView>,
)
    requires
        proposal_wf(p),
        forall|n: u32| #[trigger] c.finalized_at(n) is Some ==> n <= c.highest_finalized().1,
        old matches Some(s) ==> s matches Some(Err(_)),
    ensures
        proposal_status(c, header_valid, p, old) matches Some(Ok(bs)) ==> {
            let highest = c.highest_finalized().1;
            &&& bs.len() == p.1 - highest
            &&& bs.len() > 0
            &&& forall|k: int| 0 <= k < bs.len() ==> (#[trigger] bs[k]).1 == highest + 1 + k
            &&& bs.last() == block_at(p, p.0.len() - 1)
        },
{
    let highest = c.highest_finalized().1;
    if proposal_status(c, header_valid, p, old) matches Some(Ok(bs)) {
        assert(ancestor_finalized(c, p));
        assert(c.finalized_at((bottom_number(p) - 1) as u32) is Some);
        assert(bottom_number(p) - 1 <= highest);
    }
}

/// Progress of a proposal waiting for its ancestor: when its status so far is that its top
/// block was imported but the block below its branch was not finalized, and meanwhile the
/// parent of its lowest block became the finalized block at that height, the proposal is
/// finalized (unless it is below the highest finalized block or a hopeless fork): its blocks
/// above the highest finalized block, in order, each with its number.
pub proof fn lemma_pending_proposal_finalized_once_ancestor_is<C: ChainInfoProvider>(
    c: &C,
    header_valid: bool,
    p: (Seq<[u8; 32]>, u32),
)
    requires
        proposal_wf(p),
        forall|n: u32| #[trigger] c.finalized_at(n) is Some ==> n <= c.highest_finalized().1,
        c.highest_finalized().1 < p.1,
        !hopeless_fork(c, p),
        exists|f: ([u8; 32], u32)|
            c.finalized_at((p.1 - p.0.len()) as u32) == Some(f) && #[trigger] c.parent_hash(
                (p.0[0], (p.1 - p.0.len() + 1) as u32),
            ) == Some(f.0),
    ensures
        ({
            let highest = c.highest_finalized().1;
            let status = proposal_status(
                c,
                header_valid,
                p,
                Some(Some(Err(PendingProposalStatus::TopBlockImportedButNotFinalizedAncestor))),
            );
            &&& status matches Some(Ok(bs))
            &&& status->0->Ok_0.len() == p.1 - highest
            &&& forall|k: int|
                0 <= k < p.1 - highest ==> #[trigger] status->0->Ok_0[k] == (
                    p.0[p.0.len() - (p.1 - highest) + k],
                    (highest + 1 + k) as u32,
                )
        }),
{
    let highest = c.highest_finalized().1;
    let f = choose|f: ([u8; 32], u32)|
        c.finalized_at((p.1 - p.0.len()) as u32) == Some(f) && #[trigger] c.parent_hash(
            (p.0[0], (p.1 - p.0.len() + 1) as u32),
        ) == Some(f.0);
    assert(block_at(p, 0) == (p.0[0], (p.1 - p.0.len() + 1) as u32));
    assert((bottom_number(p) - 1) as u32 == (p.1 - p.0.len()) as u32);
    assert(ancestor_finalized(c, p));
    assert((p.1 - p.0.len()) as u32 <= highest);
}

/// A proposal whose top block is not above the highest finalized block is ignored, whatever
/// its status so far.
pub proof fn lemma_proposal_at_or_below_finalized_ignored<C: ChainInfoProvider>(
    c: &C,
    header_valid: bool,
    p: (Seq<[u8; 32]>, u32),
    old: Option<StatusView>,
)
    requires
        p.1 <= c.highest_finalized().1,
    ensures
        proposal_status(c, header_valid, p, old) is None,
{
}

/// A fresh proposal with a valid header whose top block was imported, whose blocks are each
/// the parent of the next, and whose lowest block's parent is the finalized block below it,
/// is finalized at once (unless it is a hopeless fork): its blocks above the highest
/// finalized block, in order, each with its number.
pub proof fn lemma_fresh_connected_proposal_finalized<C: ChainInfoProvider>(
    c: &C,
    p: (Seq<[u8; 32]>, u32),
)
    requires
        proposal_wf(p),
        forall|n: u32| #[trigger] c.finalized_at(n) is Some ==> n <= c.highest_finalized().1,
        c.highest_finalized().1 < p.1,
        !hopeless_fork(c, p),
        c.is_imported((p.0[p.0.len() - 1], p.1)),
        forall|i: int|
            1 <= i < p.0.len() ==> #[trigger] c.parent_hash(
                (p.0[i], (p.1 - p.0.len() + 1 + i) as u32),
            ) == Some(p.0[i - 1]),
        exists|f: ([u8; 32], u32)|
            c.finalized_at((p.1 - p.0.len()) as u32) == Some(f) && #[trigger] c.parent_hash(
                (p.0[0], (p.1 - p.0.len() + 1) as u32),
            ) == Some(f.0),
    ensures
        ({
            let highest = c.highest_finalized().1;
            let status = proposal_status(c, true, p, None);
            &&& status matches Some(Ok(bs))
            &&& status->0->Ok_0.len() == p.1 - highest
            &&& forall|k: int|
                0 <= k < p.1 - highest ==> #[trigger] status->0->Ok_0[k] == (
                    p.0[p.0.len() - (p.1 - highest) + k],
                    (highest + 1 + k) as u32,
                )
        }),
{
    let highest = c.highest_finalized().1;
    assert(block_at(p, p.0.len() - 1) == (p.0[p.0.len() - 1], p.1));
    assert forall|i: int| 1 <= i < p.0.len() implies c.parent_hash(#[trigger] block_at(p, i))
        == Some(p.0[i - 1]) by {
        assert(block_at(p, i) == (p.0[i], (p.1 - p.0.len() + 1 + i) as u32));
    }
    assert(branch_ancestry_correct(c, p));
    assert(block_at(p, 0) == (p.0[0], (p.1 - p.0.len() + 1) as u32));
    assert((bottom_number(p) - 1) as u32 == (p.1 - p.0.len()) as u32);
    assert(ancestor_finalized(c, p));
    assert((p.1 - p.0.len()) as u32 <= highest);
}

/// Decides what to do with `proposal`. `old_status` is its status so far; when there is none,
/// `header_valid` says whether the header of its top block verifies, and a proposal with an
/// invalid header is treated as one with a broken branch.
pub fn get_proposal_status<C: ChainInfoProvider>(
    chain_info_provider: &C,
    header_valid: bool,
    proposal: &AlephProposal,
    old_status: Option<&ProposalStatus>,
) -> (res: ProposalStatus)
    ensures
        res@ == proposal_status(
            chain_info_provider,
            header_valid,
            proposal@,
            match old_status {
                Some(s) => Some(s@),
                None => None,
            },
        ),
{
    let current_highest_finalized = chain_info_provider.get_highest_finalized().number;
    if current_highest_finalized >= proposal.number_top_block() {
        return ProposalStatus::Ignore;
    }
    if is_hopeless_fork(chain_info_provider, proposal) {
        return ProposalStatus::Ignore;
    }
    let old_status = match old_status {
        Some(status) => status.duplicate(),
        None => if header_valid {
            ProposalStatus::Pending(PendingProposalStatus::PendingTopBlock)
        } else {
            ProposalStatus::Pending(PendingProposalStatus::TopBlockImportedButIncorrectBranch)
        },
    };
    match old_status {
        ProposalStatus::Pending(PendingProposalStatus::PendingTopBlock) => {
            let top_block = proposal.top_block();
            if chain_info_provider.is_block_imported(&top_block) {
                if is_branch_ancestry_correct(chain_info_provider, proposal) {
                    if is_ancestor_finalized(chain_info_provider, proposal) {
                        ProposalStatus::Finalize(
                            proposal.blocks_from_num(current_highest_finalized + 1),
                        )
                    } else {
                        ProposalStatus::Pending(
                            PendingProposalStatus::TopBlockImportedButNotFinalizedAncestor,
                        )
                    }
                } else {
                    ProposalStatus::Pending(
                        PendingProposalStatus::TopBlockImportedButIncorrectBranch,
                    )
                }
            } else {
                ProposalStatus::Pending(PendingProposalStatus::PendingTopBlock)
            }
        },
        ProposalStatus::Pending(PendingProposalStatus::TopBlockImportedButNotFinalizedAncestor) => {
            if is_ancestor_finalized(chain_info_provider, proposal) {
                ProposalStatus::Finalize(proposal.blocks_from_num(current_highest_finalized + 1))
            } else {
                ProposalStatus::Pending(
                    PendingProposalStatus::TopBlockImportedButNotFinalizedAncestor,
                )
            }
        },
        ProposalStatus::Pending(PendingProposalStatus::TopBlockImportedButIncorrectBranch) => {
            ProposalStatus::Pending(PendingProposalStatus::TopBlockImportedButIncorrectBranch)
        },
        other => other,
    }
}

/// Whether the proposal conflicts with the finalized chain.
pub fn is_hopeless_fork<C: ChainInfoProvider>(chain_info_provider: &C, proposal: &AlephProposal) -> (res: bool)
    ensures
        res == hopeless_fork(chain_info_provider, proposal@),
{
    let bottom_num = proposal.number_bottom_block();
    let len = proposal.len();
    let mut i: usize = 0;
    while i < len
        invariant
            0 <= i <= len,
            len == proposal@.0.len(),
            bottom_num == bottom_number(proposal@),
            proposal_wf(proposal@),
            forall|j: int|
                0 <= j < i ==> #[trigger] finalized_is(
                    chain_info_provider,
                    (bottom_number(proposal@) + j) as u32,
                    proposal@.0[j],
                ),
        decreases len - i,
    {
        let b = proposal.block(i);
        match chain_info_provider.get_finalized_at(bottom_num + (i as u32)) {
            Ok(finalized_block) => {
                if !hash_eq(&finalized_block.hash, &b.hash) {
                    proof {
                        let p = proposal@;
                        assert(0 <= i < p.0.len());
                        assert forall|j: int| 0 <= j < i implies (#[trigger] chain_info_provider.finalized_at(
                            (bottom_number(p) + j) as u32,
                        )) is Some by {
                            assert(finalized_is(
                                chain_info_provider,
                                (bottom_number(p) + j) as u32,
                                p.0[j],
                            ));
                        }
                        assert(p.0[i as int] == b.hash@);
                    }
                    return true;
                }
            },
            Err(()) => {
                proof {
                    let p = proposal@;
                    if hopeless_fork(chain_info_provider, p) {
                        let k = choose|k: int|
                            #![trigger p.0[k]]
                            0 <= k < p.0.len() && (forall|j: int|
                                0 <= j < k ==> (#[trigger] chain_info_provider.finalized_at(
                                    (bottom_number(p) + j) as u32,
                                )) is Some) && finalized_differs(
                                chain_info_provider,
                                (bottom_number(p) + k) as u32,
                                p.0[k],
                            );
                        if k < i {
                            assert(finalized_is(
                                chain_info_provider,
                                (bottom_number(p) + k) as u32,
                                p.0[k],
                            ));
                        } else if k > i {
                            assert(chain_info_provider.finalized_at(
                                (bottom_number(p) + i) as u32,
                            ) is Some);
                        }
                    }
                }
                return false;
            },
        }
        i = i + 1;
    }
    proof {
        let p = proposal@;
        if hopeless_fork(chain_info_provider, p) {
            let k = choose|k: int|
                #![trigger p.0[k]]
                0 <= k < p.0.len() && (forall|j: int|
                    0 <= j < k ==> (#[trigger] chain_info_provider.finalized_at(
                        (bottom_number(p) + j) as u32,
                    )) is Some) && finalized_differs(
                    chain_info_provider,
                    (bottom_number(p) + k) as u32,
                    p.0[k],
                );
            assert(finalized_is(chain_info_provider, (bottom_number(p) + k) as u32, p.0[k]));
        }
    }
    false
}

/// Whether the parent of the lowest block of the branch is the finalized block below it.
pub fn is_ancestor_finalized<C: ChainInfoProvider>(chain_info_provider: &C, proposal: &AlephProposal) -> (res: bool)
    ensures
        res == ancestor_finalized(chain_info_provider, proposal@),
{
    let bottom = proposal.bottom_block();
    let parent_hash = match chain_info_provider.get_parent_hash(&bottom) {
        Ok(hash) => hash,
        Err(()) => return false,
    };
    let finalized = match chain_info_provider.get_finalized_at(proposal.number_below_branch()) {
        Ok(block) => block,
        Err(()) => return false,
    };
    hash_eq(&parent_hash, &finalized.hash)
}

/// Whether consecutive blocks of the branch are in the parent-child relation.
pub fn is_branch_ancestry_correct<C: ChainInfoProvider>(
    chain_info_provider: &C,
    proposal: &AlephProposal,
) -> (res: bool)
    ensures
        res == branch_ancestry_correct(chain_info_provider, proposal@),
{
    let len = proposal.len();
    let mut i: usize = 1;
    while i < len
        invariant
            1 <= i <= len || len == 0,
            len == proposal@.0.len(),
            forall|j: int|
                1 <= j < i ==> chain_info_provider.parent_hash(#[trigger] block_at(proposal@, j))
                    == Some(proposal@.0[j - 1]),
        decreases len - i,
    {
        let parent = proposal.block(i - 1);
        let current = proposal.block(i);
        match chain_info_provider.get_parent_hash(&current) {
            Ok(parent_hash) => {
                if !hash_eq(&parent_hash, &parent.hash) {
                    return false;
                }
            },
            Err(()) => {
                return false;
            },
        }
        i = i + 1;
    }
    true
}

} // verus!
