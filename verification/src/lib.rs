//! Verified core of the Aleph finality gadget: proposal handling, justification requests,
//! signature aggregation, discovery, versioned network encodings, gossip and peer
//! management, and metrics bookkeeping.
#![allow(unused_imports)]

pub mod aggregation;
pub mod base_protocol;
pub mod compatibility;
pub mod crypto;
pub mod data_io;
pub mod decimal;
pub mod finalization;
pub mod justification;
pub mod lru_cache;
pub mod metrics;
pub mod network;
pub mod primitives;
pub mod scale;
pub mod validators;

use vstd::prelude::*;

use crate::network::gossip::Protocol;

verus! {

/// How often, in seconds, components report their state.
pub const STATUS_REPORT_INTERVAL_SECS: u64 = 20;

/// The largest message of the authentication protocol, in bytes.
pub const MAX_AUTHENTICATION_MESSAGE_SIZE: u64 = 1024 * 1024;

/// The largest message of the block sync protocol, in bytes.
pub const MAX_BLOCK_SYNC_MESSAGE_SIZE: u64 = 8 * 1024 * 1024;

/// The largest message `protocol` carries, in bytes.
pub fn max_message_size(protocol: Protocol) -> (res: u64)
    ensures
        res == match protocol {
            Protocol::Authentication => MAX_AUTHENTICATION_MESSAGE_SIZE,
            Protocol::BlockSync => MAX_BLOCK_SYNC_MESSAGE_SIZE,
        },
{
    match protocol {
        Protocol::Authentication => MAX_AUTHENTICATION_MESSAGE_SIZE,
        Protocol::BlockSync => MAX_BLOCK_SYNC_MESSAGE_SIZE,
    }
}

/// The expected time between blocks, in milliseconds.
#[derive(Copy, Clone, Debug, Default, Eq, PartialEq, Structural, Hash, Ord, PartialOrd)]
pub struct MillisecsPerBlock(pub u64);

/// The delay between the creation of consensus units, in milliseconds.
#[derive(Copy, Clone, Debug, Default, Eq, PartialEq, Structural, Hash, Ord, PartialOrd)]
pub struct UnitCreationDelay(pub u64);

/// Limits of the validator network's traffic.
#[derive(Copy, Clone, Debug, PartialEq, Eq, Structural)]
pub struct RateLimiterConfig {
    /// Maximum bit-rate per node in bytes per second of the alephbft validator network.
    pub alephbft_bit_rate_per_connection: usize,
}

} // verus!
