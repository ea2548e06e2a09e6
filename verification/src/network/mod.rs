//! Networking: discovery of the committee, versioned authentication messages, peer
//! management and the translation of network events.
pub mod address_cache;
pub mod component;
pub mod gossip;
pub mod manager;
pub mod notifications;
pub mod substrate;
pub mod tcp;

use vstd::prelude::*;

pub use crate::scale::Data;

use crate::primitives::{NodeIndex, SessionId};

verus! {

/// How a validator could be reached in a session, as reported by its node.
#[derive(Clone, Debug)]
pub struct ValidatorAddressingInfo {
    pub network_level_address: String,
    pub network_level_peer_id: String,
    pub validator_network_peer_id: String,
}

/// Records where validators could be reached.
pub trait ValidatorAddressCacheUpdater {
    /// In session `session`, validator `validator_index` was using the addresses in `info`.
    fn update(&mut self, session: SessionId, validator_index: NodeIndex, info: ValidatorAddressingInfo);
}

} // verus!
