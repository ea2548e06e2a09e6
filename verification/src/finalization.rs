//! Finalization of blocks: only blocks above the finalized one are finalized.
use vstd::prelude::*;

use crate::primitives::BlockNumber;

verus! {

/// Whether a block numbered `block_number` may be finalized when `finalized_number` is the
/// highest finalized block: only when it is above it; otherwise the request is refused.
pub fn can_finalize(finalized_number: BlockNumber, block_number: BlockNumber) -> (res: bool)
    ensures
        res == (finalized_number < block_number),
{
    finalized_number < block_number
}

} // verus!
