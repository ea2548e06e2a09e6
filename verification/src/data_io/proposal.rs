//! Proposals of branches of blocks to be finalized, their validation against session
//! boundaries, and the statuses a proposal can have.
use vstd::prelude::*;

use crate::primitives::{BlockHash, BlockId, BlockNumber, SessionBoundaries};

verus! {

/// The longest branch an honest node proposes.
pub const MAX_DATA_BRANCH_LEN: usize = 7;

/// The hashes of a sequence of block hashes, as byte arrays.
pub open spec fn hashes_view(v: Seq<BlockHash>) -> Seq<[u8; 32]> {
    v.map_values(|h: BlockHash| h@)
}

/// Copies a vector of hashes.
pub fn copy_hashes(v: &Vec<BlockHash>) -> (res: Vec<BlockHash>)
    ensures
        res@ == v@,
{
    let mut res: Vec<BlockHash> = Vec::new();
    let mut i: usize = 0;
    while i < v.len()
        invariant
            0 <= i <= v@.len(),
            res@ == v@.subrange(0, i as int),
        decreases v@.len() - i,
    {
        res.push(v[i]);
        i = i + 1;
        assert(res@ =~= v@.subrange(0, i as int));
    }
    assert(v@.subrange(0, v@.len() as int) =~= v@);
    res
}

/// A branch of blocks proposed for finalization, as received: the hashes of the blocks from
/// the lowest to the highest, and the number of the highest block.
#[derive(Debug)]
pub struct UnvalidatedAlephProposal {
    pub branch: Vec<BlockHash>,
    pub number: BlockNumber,
}

impl View for UnvalidatedAlephProposal {
    type V = (Seq<[u8; 32]>, u32);

    open spec fn view(&self) -> (Seq<[u8; 32]>, u32) {
        (hashes_view(self.branch@), self.number)
    }
}

impl UnvalidatedAlephProposal {
    pub fn new(branch: Vec<BlockHash>, number: BlockNumber) -> (res: UnvalidatedAlephProposal)
        ensures
            res.branch == branch,
            res.number == number,
    {
        UnvalidatedAlephProposal { branch, number }
    }

    /// Checks that the branch is non-empty and not too long, that its blocks have valid
    /// numbers and that they all lie within the session.
    pub fn validate_bounds(&self, session_boundaries: &SessionBoundaries) -> (res: Result<
        AlephProposal,
        ValidationError,
    >)
        ensures
            match validation_result(self@, *session_boundaries) {
                Ok(()) => res matches Ok(p) && p@ == self@,
                Err(e) => res == Err::<AlephProposal, ValidationError>(e),
            },
    {
        let len = self.branch.len();
        if len > MAX_DATA_BRANCH_LEN {
            return Err(ValidationError::BranchTooLong { branch_size: len });
        }
        if len == 0 {
            return Err(ValidationError::BranchEmpty);
        }
        if (self.number as usize) < len {
            return Err(
                ValidationError::BlockNumberOutOfBounds { branch_size: len, block_number: self.number },
            );
        }
        let bottom_block = self.number - ((len - 1) as u32);
        let top_block = self.number;
        let session_start = session_boundaries.first_block();
        let session_end = session_boundaries.last_block();
        if session_start > bottom_block || top_block > session_end {
            return Err(
                ValidationError::BlockOutsideSessionBoundaries {
                    session_start,
                    session_end,
                    top_block,
                    bottom_block,
                },
            );
        }
        Ok(AlephProposal { branch: copy_hashes(&self.branch), number: self.number })
    }
}

/// Why a proposal is invalid.
#[derive(Debug, Clone, Copy, PartialEq, Eq)]
pub enum ValidationError {
    BranchEmpty,
    BranchTooLong { branch_size: usize },
    BlockNumberOutOfBounds { branch_size: usize, block_number: BlockNumber },
    BlockOutsideSessionBoundaries {
        session_start: BlockNumber,
        session_end: BlockNumber,
        top_block: BlockNumber,
        bottom_block: BlockNumber,
    },
}

/// The outcome of validating a proposal with view `v` against the session boundaries.
pub open spec fn validation_result(v: (Seq<[u8; 32]>, u32), sb: SessionBoundaries) -> Result<
    (),
    ValidationError,
> {
    let len = v.0.len();
    if len > MAX_DATA_BRANCH_LEN {
        Err(ValidationError::BranchTooLong { branch_size: len as usize })
    } else if len == 0 {
        Err(ValidationError::BranchEmpty)
    } else if v.1 < len {
        Err(ValidationError::BlockNumberOutOfBounds { branch_size: len as usize, block_number: v.1 })
    } else if sb.first() > v.1 - (len - 1) || v.1 > sb.last() {
        Err(
            ValidationError::BlockOutsideSessionBoundaries {
                session_start: sb.first(),
                session_end: sb.last(),
                top_block: v.1,
                bottom_block: (v.1 - (len - 1)) as u32,
            },
        )
    } else {
        Ok(())
    }
}

/// A proposal is accepted exactly when its branch is non-empty, at most
/// `MAX_DATA_BRANCH_LEN` long, starts above block 0, and lies within the session: its lowest
/// block is not before the session's first block and its top block not after the session's
/// last one. A well-formed branch reaching out of the session is refused with the session's
/// bounds and the branch's ends.
pub proof fn lemma_accepted_iff_within_session(v: (Seq<[u8; 32]>, u32), sb: SessionBoundaries)
    ensures
        validation_result(v, sb) is Ok <==> {
            &&& 1 <= v.0.len() <= MAX_DATA_BRANCH_LEN
            &&& v.0.len() <= v.1
            &&& sb.first() <= v.1 - v.0.len() + 1
            &&& v.1 <= sb.last()
        },
        ({
            &&& 1 <= v.0.len() <= MAX_DATA_BRANCH_LEN
            &&& v.0.len() <= v.1
            &&& (v.1 - v.0.len() + 1 < sb.first() || sb.last() < v.1)
        }) ==> validation_result(v, sb) == Err::<(), ValidationError>(
            ValidationError::BlockOutsideSessionBoundaries {
                session_start: sb.first(),
                session_end: sb.last(),
                top_block: v.1,
                bottom_block: (v.1 - v.0.len() + 1) as u32,
            },
        ),
{
}

/// A validated proposal: a non-empty branch, no longer than `MAX_DATA_BRANCH_LEN`, whose
/// lowest block has a positive number.
#[derive(Debug)]
pub struct AlephProposal {
    branch: Vec<BlockHash>,
    number: BlockNumber,
}

/// A proposal view is well formed: its branch is non-empty, not too long, and the block
/// below it exists.
pub open spec fn proposal_wf(v: (Seq<[u8; 32]>, u32)) -> bool {
    1 <= v.0.len() <= MAX_DATA_BRANCH_LEN && v.0.len() <= v.1
}

/// Number of the lowest block of the branch.
pub open spec fn bottom_number(v: (Seq<[u8; 32]>, u32)) -> int {
    v.1 - (v.0.len() - 1)
}

/// The `i`-th block of the branch, counted from the lowest.
pub open spec fn block_at(v: (Seq<[u8; 32]>, u32), i: int) -> ([u8; 32], u32) {
    (v.0[i], (bottom_number(v) + i) as u32)
}

/// The blocks of the branch whose numbers are at least `num`, from the lowest.
pub open spec fn blocks_from(v: (Seq<[u8; 32]>, u32), num: int) -> Seq<([u8; 32], u32)> {
    let start = if num > bottom_number(v) {
        num - bottom_number(v)
    } else {
        0
    };
    if start >= v.0.len() {
        Seq::empty()
    } else {
        Seq::new((v.0.len() - start) as nat, |k: int| block_at(v, start + k))
    }
}

/// The views of a sequence of block identifiers.
pub open spec fn ids_view(s: Seq<BlockId>) -> Seq<([u8; 32], u32)> {
    s.map_values(|b: BlockId| b@)
}

impl View for AlephProposal {
    type V = (Seq<[u8; 32]>, u32);

    closed spec fn view(&self) -> (Seq<[u8; 32]>, u32) {
        (hashes_view(self.branch@), self.number)
    }
}

impl AlephProposal {
    #[verifier::type_invariant]
    spec fn inv(self) -> bool {
        proposal_wf(self@)
    }

    pub fn len(&self) -> (res: usize)
        ensures
            res == self@.0.len(),
    {
        self.branch.len()
    }

    pub fn number_top_block(&self) -> (res: BlockNumber)
        ensures
            res == self@.1,
    {
        self.number
    }

    pub fn number_bottom_block(&self) -> (res: BlockNumber)
        ensures
            res == bottom_number(self@),
            proposal_wf(self@),
    {
        proof {
            use_type_invariant(self);
        }
        self.number - ((self.branch.len() - 1) as u32)
    }

    /// Number of the block right below the branch.
    pub fn number_below_branch(&self) -> (res: BlockNumber)
        ensures
            res == bottom_number(self@) - 1,
    {
        proof {
            use_type_invariant(self);
        }
        self.number - (self.branch.len() as u32)
    }

    pub fn top_block(&self) -> (res: BlockId)
        ensures
            res@ == block_at(self@, self@.0.len() - 1),
    {
        proof {
            use_type_invariant(self);
        }
        let len = self.branch.len();
        BlockId::new(self.branch[len - 1], self.number)
    }

    pub fn bottom_block(&self) -> (res: BlockId)
        ensures
            res@ == block_at(self@, 0),
    {
        proof {
            use_type_invariant(self);
        }
        BlockId::new(self.branch[0], self.number_bottom_block())
    }

    /// The `i`-th block of the branch, counted from the lowest.
    pub fn block(&self, i: usize) -> (res: BlockId)
        requires
            i < self@.0.len(),
        ensures
            res@ == block_at(self@, i as int),
    {
        proof {
            use_type_invariant(self);
        }
        BlockId::new(self.branch[i], self.number_bottom_block() + (i as u32))
    }

    /// The blocks of the branch whose numbers are at least `num`, from the lowest.
    pub fn blocks_from_num(&self, num: BlockNumber) -> (res: Vec<BlockId>)
        ensures
            ids_view(res@) == blocks_from(self@, num as int),
    {
        proof {
            use_type_invariant(self);
        }
        let bottom = self.number_bottom_block();
        let len = self.branch.len();
        let start: usize = if num > bottom {
            (num - bottom) as usize
        } else {
            0
        };
        let mut res: Vec<BlockId> = Vec::new();
        if start >= len {
            assert(ids_view(res@) =~= blocks_from(self@, num as int));
            return res;
        }
        let mut i: usize = start;
        while i < len
            invariant
                start <= i <= len,
                len == self@.0.len(),
                start < len,
                proposal_wf(self@),
                bottom == bottom_number(self@),
                start == (if num > bottom_number(self@) {
                    num - bottom_number(self@)
                } else {
                    0
                }),
                ids_view(res@) =~= Seq::new(
                    (i - start) as nat,
                    |k: int| block_at(self@, start + k),
                ),
            decreases len - i,
        {
            let b = self.block(i);
            let ghost prev = res@;
            res.push(b);
            proof {
                assert(res@ =~= prev.push(b));
                assert(ids_view(res@) =~= ids_view(prev).push(b@));
            }
            i = i + 1;
            assert(ids_view(res@) =~= Seq::new(
                (i - start) as nat,
                |k: int| block_at(self@, start + k),
            ));
        }
        res
    }
}

/// What is still missing before a proposal can be finalized.
#[derive(Debug, Clone, Copy, PartialEq, Eq)]
pub enum PendingProposalStatus {
    PendingTopBlock,
    TopBlockImportedButIncorrectBranch,
    TopBlockImportedButNotFinalizedAncestor,
}

/// What to do with a proposal: finalize the given blocks, ignore it, or wait.
#[derive(Debug, Clone, PartialEq, Eq)]
pub enum ProposalStatus {
    Finalize(Vec<BlockId>),
    Ignore,
    Pending(PendingProposalStatus),
}

} // verus!

verus! {

/// The view of a status: `None` to ignore, `Some(Ok(blocks))` to finalize the blocks,
/// `Some(Err(pending))` to wait.
pub type StatusView = Option<Result<Seq<([u8; 32], u32)>, PendingProposalStatus>>;

impl View for ProposalStatus {
    type V = StatusView;

    open spec fn view(&self) -> StatusView {
        match self {
            ProposalStatus::Finalize(blocks) => Some(Ok(ids_view(blocks@))),
            ProposalStatus::Ignore => None,
            ProposalStatus::Pending(p) => Some(Err(*p)),
        }
    }
}

impl ProposalStatus {
    /// A copy of the status.
    pub fn duplicate(&self) -> (res: ProposalStatus)
        ensures
            res@ == self@,
    {
        match self {
            ProposalStatus::Finalize(blocks) => {
                let mut v: Vec<BlockId> = Vec::new();
                let mut i: usize = 0;
                while i < blocks.len()
                    invariant
                        0 <= i <= blocks@.len(),
                        v@ == blocks@.subrange(0, i as int),
                    decreases blocks@.len() - i,
                {
                    v.push(blocks[i]);
                    i = i + 1;
                    assert(v@ =~= blocks@.subrange(0, i as int));
                }
                assert(blocks@.subrange(0, blocks@.len() as int) =~= blocks@);
                ProposalStatus::Finalize(v)
            },
            ProposalStatus::Ignore => ProposalStatus::Ignore,
            ProposalStatus::Pending(p) => ProposalStatus::Pending(*p),
        }
    }
}

} // verus!
