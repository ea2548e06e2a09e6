//! Interpretation of the data that the ordering finalized: which blocks to finalize.
use vstd::prelude::*;

use crate::data_io::chain_info::ChainInfoProvider;
use crate::data_io::proposal::{validation_result, ProposalStatus, StatusView};
use crate::data_io::status_provider::{get_proposal_status, proposal_status};
use crate::data_io::AlephData;
use crate::primitives::{BlockId, BlockNumber, SessionBoundaries};

verus! {

/// The number of the block finalized last before the session: the last block of the
/// previous session, or the genesis block in the first session.
pub open spec fn last_block_prev_session(sb: SessionBoundaries) -> u32 {
    if sb.first() > 0 {
        (sb.first() - 1) as u32
    } else {
        0
    }
}

/// The number of the block finalized last before the session.
pub fn last_block_prev_session_number(sb: &SessionBoundaries) -> (res: BlockNumber)
    ensures
        res == last_block_prev_session(*sb),
{
    let first = sb.first_block();
    if first > 0 {
        first - 1
    } else {
        0
    }
}

/// The status of the proposal in ordered data `d`, when it passes validation.
pub open spec fn ordered_status<C: ChainInfoProvider>(
    c: &C,
    sb: SessionBoundaries,
    d: Option<(Seq<[u8; 32]>, u32)>,
    header_valid: bool,
) -> Option<StatusView> {
    match d {
        None => None,
        Some(p) => match validation_result(p, sb) {
            Ok(()) => Some(proposal_status(c, header_valid, p, None)),
            Err(_) => None,
        },
    }
}

/// The blocks that ordered data `d` finalizes: those its proposal's status says to finalize;
/// none when the data is empty, its proposal invalid, or the proposal is to be ignored.
pub open spec fn blocks_to_finalize<C: ChainInfoProvider>(
    c: &C,
    sb: SessionBoundaries,
    d: Option<(Seq<[u8; 32]>, u32)>,
    header_valid: bool,
) -> Seq<([u8; 32], u32)> {
    match ordered_status(c, sb, d, header_valid) {
        Some(Some(Ok(blocks))) => blocks,
        _ => Seq::empty(),
    }
}

/// Turns ordered data into the blocks to finalize, and remembers the last of them.
pub struct OrderedDataInterpreter {
    last_finalized_by_aleph: BlockId,
    session_boundaries: SessionBoundaries,
}

impl OrderedDataInterpreter {
    pub closed spec fn last_finalized(&self) -> ([u8; 32], u32) {
        self.last_finalized_by_aleph@
    }

    pub closed spec fn boundaries(&self) -> SessionBoundaries {
        self.session_boundaries
    }

    /// An interpreter for the session, starting from `last_finalized_by_aleph`, the block at
    /// `last_block_prev_session_number`.
    pub fn new(session_boundaries: SessionBoundaries, last_finalized_by_aleph: BlockId) -> (res:
        OrderedDataInterpreter)
        ensures
            res.last_finalized() == last_finalized_by_aleph@,
            res.boundaries() == session_boundaries,
    {
        OrderedDataInterpreter { last_finalized_by_aleph, session_boundaries }
    }

    /// The blocks to finalize for ordered `new_data`; `header_valid` says whether the header
    /// of the proposal's top block verifies. Ordered data is available data, so its proposal
    /// is never pending.
    pub fn blocks_to_finalize_from_data<C: ChainInfoProvider>(
        &self,
        chain_info_provider: &C,
        new_data: AlephData,
        header_valid: bool,
    ) -> (res: Vec<BlockId>)
        requires
            !(ordered_status(chain_info_provider, self.boundaries(), new_data@, header_valid) matches Some(
                Some(Err(_)),
            )),
        ensures
            res@.map_values(|b: BlockId| b@) == blocks_to_finalize(
                chain_info_provider,
                self.boundaries(),
                new_data@,
                header_valid,
            ),
    {
        let unvalidated = match new_data {
            AlephData::Empty => return Vec::new(),
            AlephData::HeadProposal(p) => p,
        };
        let proposal = match unvalidated.validate_bounds(&self.session_boundaries) {
            Ok(proposal) => proposal,
            Err(_) => return Vec::new(),
        };
        match get_proposal_status(chain_info_provider, header_valid, &proposal, None) {
            ProposalStatus::Finalize(blocks) => blocks,
            ProposalStatus::Ignore => Vec::new(),
            ProposalStatus::Pending(_) => {
                proof {
                    assert(false);
                }
                Vec::new()
            },
        }
    }

    /// Handles finalized ordered data: the blocks to finalize, in order; the last of them
    /// becomes the last block finalized by the ordering.
    pub fn data_finalized<C: ChainInfoProvider>(
        &mut self,
        chain_info_provider: &C,
        data: AlephData,
        header_valid: bool,
    ) -> (res: Vec<BlockId>)
        requires
            !(ordered_status(chain_info_provider, old(self).boundaries(), data@, header_valid) matches Some(
                Some(Err(_)),
            )),
        ensures
            res@.map_values(|b: BlockId| b@) == blocks_to_finalize(
                chain_info_provider,
                old(self).boundaries(),
                data@,
                header_valid,
            ),
            final(self).boundaries() == old(self).boundaries(),
            final(self).last_finalized() == if res@.len() == 0 {
                old(self).last_finalized()
            } else {
                res@.last()@
            },
    {
        let blocks = self.blocks_to_finalize_from_data(chain_info_provider, data, header_valid);
        if blocks.len() > 0 {
            self.last_finalized_by_aleph = blocks[blocks.len() - 1];
        }
        blocks
    }
}

} // verus!
