//! Requesting and handling justifications of blocks.
pub mod handler;
pub mod requester;

use vstd::prelude::*;

verus! {

} // verus!
