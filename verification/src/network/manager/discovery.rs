//! Creating and rebroadcasting discovery messages.
use std::collections::HashMap;
use vstd::prelude::*;

use crate::network::manager::{AuthData, Authentication};
use crate::primitives::{NodeIndex, SessionId};

verus! {

broadcast use vstd::std_specs::hash::group_hash_axioms;

/// Messages used for discovery and authentication.
#[derive(Clone, Debug, PartialEq, Eq, Hash)]
pub enum DiscoveryMessage<M> {
    AuthenticationBroadcast(Authentication<M>),
    Authentication(Authentication<M>),
}

impl<M> DiscoveryMessage<M> {
    /// The session the carried authentication is for.
    pub fn session_id(&self) -> (res: SessionId)
        ensures
            res == match self {
                DiscoveryMessage::AuthenticationBroadcast(a) => a.0.session_id,
                DiscoveryMessage::Authentication(a) => a.0.session_id,
            },
    {
        match self {
            DiscoveryMessage::AuthenticationBroadcast(Authentication(auth_data, _))
            | DiscoveryMessage::Authentication(Authentication(auth_data, _)) => auth_data.session(),
        }
    }
}

/// Handles creating and rebroadcasting discovery messages. It remembers when it last
/// rebroadcast an authentication of each node, and rebroadcasts a node's authentication again
/// only once the cooldown has passed. Times are in milliseconds.
pub struct Discovery<M> {
    cooldown: u64,
    last_broadcast: HashMap<usize, u64>,
    _phantom: core::marker::PhantomData<M>,
}

impl<M> Discovery<M> {
    /// When the authentication of each node was last rebroadcast.
    pub closed spec fn last_broadcasts(&self) -> Map<usize, u64> {
        self.last_broadcast@
    }

    /// The response/broadcast cooldown.
    pub closed spec fn cooldown_ms(&self) -> u64 {
        self.cooldown
    }

    /// Create a new discovery handler with the given response/broadcast cooldown.
    pub fn new(cooldown: u64) -> (res: Discovery<M>)
        ensures
            res.cooldown_ms() == cooldown,
            res.last_broadcasts() == Map::<usize, u64>::empty(),
    {
        Discovery { cooldown, last_broadcast: HashMap::new(), _phantom: core::marker::PhantomData }
    }

    /// The message to send as part of authority discovery at this moment, given our own
    /// authentication for the session, if we are an authority: a broadcast of it.
    pub fn discover_authorities(&mut self, authentication: Option<Authentication<M>>) -> (res:
        Option<DiscoveryMessage<M>>)
        ensures
            match authentication {
                Some(a) => res == Some(DiscoveryMessage::AuthenticationBroadcast(a)),
                None => res is None,
            },
            final(self).last_broadcasts() == old(self).last_broadcasts(),
            final(self).cooldown_ms() == old(self).cooldown_ms(),
    {
        match authentication {
            Some(authentication) => Some(DiscoveryMessage::AuthenticationBroadcast(authentication)),
            None => None,
        }
    }
}

/// A node's authentication may be rebroadcast at time `now`: it never was, or the cooldown has
/// passed since it last was.
pub open spec fn may_rebroadcast(last: Map<usize, u64>, cooldown: u64, node: usize, now: u64) -> bool {
    !last.contains_key(node) || now > last[node] + cooldown
}

/// The addresses in `res` are clones of those in `auth`.
pub open spec fn cloned_addresses<M: Clone>(auth: AuthData<M>, res: Vec<M>) -> bool {
    &&& res.len() == auth.addresses.len()
    &&& forall|i: int| 0 <= i < res.len() ==> cloned::<M>(auth.addresses[i], #[trigger] res[i])
}

impl<M: Clone> Discovery<M> {
    fn should_rebroadcast(&self, node_id: &NodeIndex, now: u64) -> (res: bool)
        ensures
            res == may_rebroadcast(self.last_broadcasts(), self.cooldown_ms(), node_id.0, now),
    {
        match self.last_broadcast.get(&node_id.0) {
            Some(instant) => now >= *instant && now - *instant > self.cooldown,
            None => true,
        }
    }

    /// The addresses we should be connected to, given whether the session handler accepted
    /// the authentication.
    fn handle_authentication(
        &mut self,
        authentication: &Authentication<M>,
        accepted: bool,
    ) -> (res: Vec<M>)
        ensures
            accepted ==> cloned_addresses(authentication.0, res),
            !accepted ==> res.len() == 0,
            *final(self) == *old(self),
    {
        if !accepted {
            return Vec::new();
        }
        authentication.0.addresses()
    }

    fn handle_broadcast(
        &mut self,
        authentication: Authentication<M>,
        accepted: bool,
        now: u64,
    ) -> (res: (Vec<M>, Option<DiscoveryMessage<M>>))
        ensures
            broadcast_outcome(*old(self), *final(self), authentication, accepted, now, res),
    {
        let addresses = self.handle_authentication(&authentication, accepted);
        if addresses.len() == 0 {
            return (Vec::new(), None);
        }
        let node_id = authentication.0.creator();
        if !self.should_rebroadcast(&node_id, now) {
            return (addresses, None);
        }
        self.last_broadcast.insert(node_id.0, now);
        (addresses, Some(DiscoveryMessage::AuthenticationBroadcast(authentication)))
    }

    /// Analyzes the message and returns the addresses we should be connected to if we want to
    /// stay connected to the committee, and a message to send as a result of it. `accepted`
    /// says whether the session handler accepted the authentication in the message; `now` is
    /// the current time.
    pub fn handle_message(
        &mut self,
        message: DiscoveryMessage<M>,
        accepted: bool,
        now: u64,
    ) -> (res: (Vec<M>, Option<DiscoveryMessage<M>>))
        ensures
            match message {
                DiscoveryMessage::AuthenticationBroadcast(a) => broadcast_outcome(
                    *old(self),
                    *final(self),
                    a,
                    accepted,
                    now,
                    res,
                ),
                DiscoveryMessage::Authentication(a) => {
                    &&& accepted ==> cloned_addresses(a.0, res.0)
                    &&& !accepted ==> res.0.len() == 0
                    &&& res.1 is None
                    &&& *final(self) == *old(self)
                },
            },
    {
        match message {
            DiscoveryMessage::AuthenticationBroadcast(authentication) => {
                self.handle_broadcast(authentication, accepted, now)
            },
            DiscoveryMessage::Authentication(authentication) => {
                let addresses = self.handle_authentication(&authentication, accepted);
                (addresses, None)
            },
        }
    }
}

/// What handling a broadcast authentication does: nothing when it is not accepted or carries
/// no address; otherwise it yields the addresses, and, when the cooldown for its creator has
/// passed, the broadcast to send on, noting the time.
pub open spec fn broadcast_outcome<M: Clone>(
    pre: Discovery<M>,
    post: Discovery<M>,
    a: Authentication<M>,
    accepted: bool,
    now: u64,
    res: (Vec<M>, Option<DiscoveryMessage<M>>),
) -> bool {
    if !accepted || a.0.addresses.len() == 0 {
        &&& res.0.len() == 0
        &&& res.1 is None
        &&& post == pre
    } else {
        &&& cloned_addresses(a.0, res.0)
        &&& post.cooldown_ms() == pre.cooldown_ms()
        &&& if may_rebroadcast(pre.last_broadcasts(), pre.cooldown_ms(), a.0.node_id.0, now) {
            &&& res.1 == Some(DiscoveryMessage::AuthenticationBroadcast(a))
            &&& post.last_broadcasts() == pre.last_broadcasts().insert(a.0.node_id.0, now)
        } else {
            &&& res.1 is None
            &&& post.last_broadcasts() == pre.last_broadcasts()
        }
    }
}

} // verus!
