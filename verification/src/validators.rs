//! Addresses of the validator nodes of a local test network.
use vstd::prelude::*;
use vstd::string::StringExecFns;

use crate::decimal::{decimal, decimal_string};

verus! {

/// The RPC port of the node with index 0; validator `n` listens on this plus `n`.
pub const FIRST_PORT: u32 = 9944;

/// The prefix of every validator address.
pub open spec fn address_base() -> Seq<char> {
    "ws://127.0.0.1:"@
}

/// The websocket address of the `index`-th validator node; index 0 is the RPC node.
pub fn validator_address(index: u32) -> (res: String)
    requires
        index > 0,
        FIRST_PORT + index <= u32::MAX,
    ensures
        res@ == address_base() + decimal((FIRST_PORT + index) as nat),
{
    let port = FIRST_PORT + index;
    let digits = decimal_string(port);
    String::from_str("ws://127.0.0.1:").concat(digits.as_str())
}

} // verus!
