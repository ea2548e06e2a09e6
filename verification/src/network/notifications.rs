//! The gossip service of a single protocol on top of a substrate notification service: the
//! connected peers, what a notification event does to them, and how a peer is picked at
//! random.
use std::collections::HashSet;

use vstd::prelude::*;
use vstd::string::StringExecFns;

use crate::network::gossip::{random_index, set_elements, Protocol};
use crate::network::substrate::NotificationEvent;

verus! {

broadcast use vstd::std_specs::hash::group_hash_axioms;

/// Why the service stopped.
#[derive(Clone, Copy, Debug, PartialEq, Eq, Structural)]
pub enum GossipServiceError {
    NetworkStreamTerminated,
}

impl GossipServiceError {
    /// What the error says.
    pub fn message(&self) -> (res: String)
        ensures
            res@ == "Network event stream ended."@,
    {
        String::from_str("Network event stream ended.")
    }
}

/// What the service does after a notification event.
#[derive(Debug)]
pub enum NotificationOutcome {
    /// Accept the inbound substream.
    AcceptSubstream,
    /// Nothing more to do.
    Nothing,
    /// Hand this message from this peer to the user.
    Deliver(Vec<u8>, u64),
}

/// The gossip service of one protocol.
pub struct Service {
    protocol: Protocol,
    connected_peers: HashSet<u64>,
}

impl Service {
    pub closed spec fn connected(&self) -> Set<u64> {
        self.connected_peers@
    }

    pub closed spec fn protocol(&self) -> Protocol {
        self.protocol
    }

    /// A service of `protocol` with no peer connected.
    pub fn new(protocol: Protocol) -> (res: Service)
        ensures
            res.protocol() == protocol,
            res.connected() == Set::<u64>::empty(),
    {
        Service { protocol, connected_peers: HashSet::new() }
    }

    /// The number of connected peers.
    pub fn connected_count(&self) -> (res: usize)
        ensures
            res == self.connected().len(),
    {
        self.connected_peers.len()
    }

    /// Applies a notification event: substream requests are accepted, opened and closed
    /// streams connect and disconnect the peer, and a notification is handed to the user.
    pub fn handle_network_event(&mut self, event: NotificationEvent<u64>) -> (res: NotificationOutcome)
        ensures
            final(self).protocol() == old(self).protocol(),
            match event {
                NotificationEvent::ValidateInboundSubstream => res is AcceptSubstream
                    && final(self).connected() == old(self).connected(),
                NotificationEvent::NotificationStreamOpened(peer) => res is Nothing
                    && final(self).connected() == old(self).connected().insert(peer),
                NotificationEvent::NotificationStreamClosed(peer) => res is Nothing
                    && final(self).connected() == old(self).connected().remove(peer),
                NotificationEvent::NotificationReceived(peer, data) => res matches NotificationOutcome::Deliver(
                    d,
                    p,
                ) && d@ == data@ && p == peer && final(self).connected() == old(self).connected(),
            },
    {
        match event {
            NotificationEvent::ValidateInboundSubstream => NotificationOutcome::AcceptSubstream,
            NotificationEvent::NotificationStreamOpened(peer) => {
                self.connected_peers.insert(peer);
                NotificationOutcome::Nothing
            },
            NotificationEvent::NotificationStreamClosed(peer) => {
                self.connected_peers.remove(&peer);
                NotificationOutcome::Nothing
            },
            NotificationEvent::NotificationReceived(peer, data) => NotificationOutcome::Deliver(
                data,
                peer,
            ),
        }
    }

    /// A peer picked at random among `peer_ids` that are connected, or, when there are none,
    /// among all the connected peers; `None` when no peer is connected.
    pub fn random_peer(&self, peer_ids: &HashSet<u64>) -> (res: Option<u64>)
        ensures
            match res {
                Some(p) => if peer_ids@.intersect(self.connected()).is_empty() {
                    self.connected().contains(p)
                } else {
                    peer_ids@.intersect(self.connected()).contains(p)
                },
                None => self.connected().is_empty(),
            },
    {
        let wanted = set_elements(peer_ids);
        let mut chosen: Vec<u64> = Vec::new();
        let mut i: usize = 0;
        while i < wanted.len()
            invariant
                i <= wanted.len(),
                wanted@.to_set() == peer_ids@,
                forall|k: int| 0 <= k < chosen.len() ==> peer_ids@.intersect(self.connected()).contains(
                    #[trigger] chosen@[k],
                ),
                forall|j: int|
                    0 <= j < i && self.connected().contains(#[trigger] wanted@[j]) ==> chosen@.len() > 0,
            decreases wanted.len() - i,
        {
            let x = wanted[i];
            if self.connected_peers.contains(&x) {
                proof {
                    assert(wanted@.to_set().contains(wanted@[i as int]));
                }
                chosen.push(x);
            }
            i = i + 1;
        }
        if chosen.len() > 0 {
            let k = random_index(chosen.len());
            return Some(chosen[k]);
        }
        proof {
            if !peer_ids@.intersect(self.connected()).is_empty() {
                let x = peer_ids@.intersect(self.connected()).choose();
                assert(wanted@.to_set().contains(x));
                let j = choose|j: int| 0 <= j < wanted.len() && wanted@[j] == x;
                assert(self.connected().contains(wanted@[j]));
            }
        }
        let all = set_elements(&self.connected_peers);
        if all.len() == 0 {
            proof {
                if !self.connected().is_empty() {
                    let x = self.connected().choose();
                    assert(all@.to_set().contains(x));
                }
            }
            None
        } else {
            let k = random_index(all.len());
            proof {
                assert(all@.to_set().contains(all@[k as int]));
            }
            Some(all[k])
        }
    }
}

} // verus!
