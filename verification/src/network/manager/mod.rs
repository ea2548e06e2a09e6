//! Discovery and authentication of committee members.
pub mod compatibility;
pub mod discovery;

use vstd::prelude::*;

pub use crate::crypto::Signature;
use crate::primitives::{NodeIndex, SessionId};

verus! {

/// What an authority announces about itself: where to reach it, who it is, and the session
/// the announcement is for.
#[derive(Clone, Debug, PartialEq, Eq, Hash)]
pub struct AuthData<M> {
    pub addresses: Vec<M>,
    pub node_id: NodeIndex,
    pub session_id: SessionId,
}

impl<M> AuthData<M> {
    pub fn session(&self) -> (res: SessionId)
        ensures
            res == self.session_id,
    {
        self.session_id
    }

    pub fn creator(&self) -> (res: NodeIndex)
        ensures
            res == self.node_id,
    {
        self.node_id
    }
}

impl<M: Clone> AuthData<M> {
    pub fn addresses(&self) -> (res: Vec<M>)
        ensures
            res.len() == self.addresses.len(),
            forall|i: int| 0 <= i < res.len() ==> cloned::<M>(self.addresses[i], #[trigger] res[i]),
    {
        self.addresses.clone()
    }
}

/// Authentication data together with its authority's signature over it.
#[derive(Clone, Debug, PartialEq, Eq, Hash)]
pub struct Authentication<M>(pub AuthData<M>, pub Signature);

} // verus!
