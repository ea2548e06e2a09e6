//! Admission of peers to the base protocol: slots for full, light, inbound and reserved peers.
use std::collections::{HashMap, HashSet};

use vstd::prelude::*;
use vstd::std_specs::iter::IteratorSpec;

use crate::primitives::{hash_eq, BlockHash};

verus! {

broadcast use vstd::std_specs::hash::group_hash_axioms;

/// Why a connection was refused.
#[derive(Clone, Copy, Debug, PartialEq, Eq, Structural)]
pub enum ConnectionError {
    BadlyEncodedHandshake,
    BadHandshakeGenesis,
    PeerAlreadyConnected,
    TooManyFullPeers,
    TooManyFullInboundPeers,
    NonFullReservedNode,
    TooManyLightNodes,
}

/// What a connecting peer's handshake tells: whether it is a full node (or an authority),
/// and the genesis of its chain.
#[derive(Clone, Copy, Debug, PartialEq, Eq)]
pub struct Handshake {
    pub is_full: bool,
    pub genesis_hash: BlockHash,
}

/// The sizes of the default peer set.
#[derive(Clone, Copy, Debug, PartialEq, Eq, Structural)]
pub struct PeerSetConfig {
    /// Slots for full nodes.
    pub num_full: u32,
    pub out_peers: u32,
    pub in_peers: u32,
}

/// The state of the admission, as plain values.
pub struct HandlerView {
    /// The connected peers, each with whether it is a full node.
    pub peers: Map<u64, bool>,
    pub full_non_reserved_peers: Set<u64>,
    pub reserved_nodes: Set<u64>,
    pub reserved_peers: Set<u64>,
    pub max_full_non_reserved_peers: usize,
    pub max_light_peers: usize,
    pub max_inbound_peers: usize,
    pub num_inbound_peers: usize,
    pub genesis_hash: [u8; 32],
}

/// Handler for the base protocol.
pub struct Handler {
    peers: HashMap<u64, bool>,
    full_non_reserved_peers: HashSet<u64>,
    reserved_nodes: HashSet<u64>,
    reserved_peers: HashSet<u64>,
    max_full_non_reserved_peers: usize,
    max_light_peers: usize,
    max_inbound_peers: usize,
    num_inbound_peers: usize,
    genesis_hash: BlockHash,
}

/// The number of light peers as the handler counts it: connected peers less the full
/// non-reserved ones less the reserved nodes, with wrapping subtraction, so that it is a
/// huge number when reserved nodes are not connected yet.
pub open spec fn light_count(h: HandlerView) -> usize {
    (h.peers.len() as usize).wrapping_sub(h.full_non_reserved_peers.len() as usize).wrapping_sub(
        h.reserved_nodes.len() as usize,
    )
}

/// Whether a peer with handshake `hs` may connect, and if not, why.
pub open spec fn admission(h: HandlerView, peer: u64, hs: Option<Handshake>, is_inbound: bool) -> Result<(), ConnectionError> {
    match hs {
        None => Err(ConnectionError::BadlyEncodedHandshake),
        Some(hs) => if hs.genesis_hash@ != h.genesis_hash {
            Err(ConnectionError::BadHandshakeGenesis)
        } else if h.peers.dom().contains(peer) {
            Err(ConnectionError::PeerAlreadyConnected)
        } else if h.reserved_nodes.contains(peer) {
            if !hs.is_full {
                Err(ConnectionError::NonFullReservedNode)
            } else {
                Ok(())
            }
        } else if hs.is_full && h.full_non_reserved_peers.len() >= h.max_full_non_reserved_peers {
            Err(ConnectionError::TooManyFullPeers)
        } else if hs.is_full && is_inbound && h.num_inbound_peers >= h.max_inbound_peers {
            Err(ConnectionError::TooManyFullInboundPeers)
        } else if !hs.is_full && light_count(h) >= h.max_light_peers {
            Err(ConnectionError::TooManyLightNodes)
        } else {
            Ok(())
        },
    }
}

/// The state after an admitted peer connected: it is counted as reserved, or as a full
/// non-reserved peer (and an inbound one when it dialed in), or as a light peer.
pub open spec fn admitted(h: HandlerView, peer: u64, hs: Handshake, is_inbound: bool) -> HandlerView {
    let reserved = h.reserved_nodes.contains(peer);
    HandlerView {
        peers: h.peers.insert(peer, hs.is_full),
        reserved_peers: if reserved {
            h.reserved_peers.insert(peer)
        } else {
            h.reserved_peers
        },
        full_non_reserved_peers: if !reserved && hs.is_full {
            h.full_non_reserved_peers.insert(peer)
        } else {
            h.full_non_reserved_peers
        },
        num_inbound_peers: if !reserved && hs.is_full && is_inbound {
            (h.num_inbound_peers + 1) as usize
        } else {
            h.num_inbound_peers
        },
        ..h
    }
}

impl Handler {
    pub closed spec fn view(&self) -> HandlerView {
        HandlerView {
            peers: self.peers@,
            full_non_reserved_peers: self.full_non_reserved_peers@,
            reserved_nodes: self.reserved_nodes@,
            reserved_peers: self.reserved_peers@,
            max_full_non_reserved_peers: self.max_full_non_reserved_peers,
            max_light_peers: self.max_light_peers,
            max_inbound_peers: self.max_inbound_peers,
            num_inbound_peers: self.num_inbound_peers,
            genesis_hash: self.genesis_hash@,
        }
    }

    /// Full non-reserved and reserved peers are connected, and no more full non-reserved or
    /// inbound ones are counted than the slots allow.
    pub closed spec fn wf(&self) -> bool {
        &&& self.full_non_reserved_peers@.subset_of(self.peers@.dom())
        &&& self.reserved_peers@.subset_of(self.peers@.dom())
        &&& self.num_inbound_peers <= self.max_inbound_peers
        &&& self.full_non_reserved_peers@.len() <= self.max_full_non_reserved_peers
    }

    /// The handler never admits more full non-reserved peers, or counts more inbound full
    /// peers, than it has slots for.
    pub proof fn lemma_slots_respected(&self)
        requires
            self.wf(),
        ensures
            self.view().full_non_reserved_peers.len() <= self.view().max_full_non_reserved_peers,
            self.view().num_inbound_peers <= self.view().max_inbound_peers,
    {
    }

    /// A handler with no peers, for the chain with `genesis_hash`, with `reserved_nodes`
    /// reserved, and slots as `config` gives them: `num_full` full non-reserved peers, the
    /// rest of the in and out slots for light peers, and the full slots not taken by
    /// outgoing connections for inbound ones.
    pub fn new(genesis_hash: BlockHash, reserved_nodes: &Vec<u64>, config: PeerSetConfig) -> (res: Handler)
        requires
            config.out_peers + config.in_peers <= u32::MAX,
        ensures
            res.wf(),
            res.view().peers == Map::<u64, bool>::empty(),
            res.view().full_non_reserved_peers == Set::<u64>::empty(),
            res.view().reserved_peers == Set::<u64>::empty(),
            res.view().reserved_nodes == reserved_nodes@.to_set(),
            res.view().max_full_non_reserved_peers == config.num_full,
            res.view().max_light_peers == if config.out_peers + config.in_peers >= config.num_full {
                config.out_peers + config.in_peers - config.num_full
            } else {
                0
            },
            res.view().max_inbound_peers == if config.num_full >= config.out_peers {
                config.num_full - config.out_peers
            } else {
                0
            },
            res.view().num_inbound_peers == 0,
            res.view().genesis_hash == genesis_hash@,
    {
        let mut reserved: HashSet<u64> = HashSet::new();
        let mut i: usize = 0;
        while i < reserved_nodes.len()
            invariant
                i <= reserved_nodes.len(),
                reserved@ == reserved_nodes@.subrange(0, i as int).to_set(),
            decreases reserved_nodes.len() - i,
        {
            proof {
                assert(reserved_nodes@.subrange(0, i + 1) =~= reserved_nodes@.subrange(0, i as int).push(
                    reserved_nodes@[i as int],
                ));
                reserved_nodes@.subrange(0, i as int).lemma_push_to_set_commute(
                    reserved_nodes@[i as int],
                );
            }
            reserved.insert(reserved_nodes[i]);
            i = i + 1;
        }
        proof {
            assert(reserved_nodes@.subrange(0, reserved_nodes.len() as int) =~= reserved_nodes@);
        }
        let total = config.out_peers + config.in_peers;
        Handler {
            peers: HashMap::new(),
            full_non_reserved_peers: HashSet::new(),
            reserved_nodes: reserved,
            reserved_peers: HashSet::new(),
            max_full_non_reserved_peers: config.num_full as usize,
            max_light_peers: total.saturating_sub(config.num_full) as usize,
            max_inbound_peers: config.num_full.saturating_sub(config.out_peers) as usize,
            num_inbound_peers: 0,
            genesis_hash,
        }
    }

    /// The connected peers, each with whether it is a full node.
    pub fn peers_info(&self) -> (res: Vec<(u64, bool)>)
        ensures
            res@.no_duplicates(),
            forall|i: int|
                0 <= i < res.len() ==> self.view().peers.dom().contains(#[trigger] res@[i].0)
                    && self.view().peers[res@[i].0] == res@[i].1,
            forall|p: u64|
                #[trigger] self.view().peers.dom().contains(p) ==> res@.contains(
                    (p, self.view().peers[p]),
                ),
    {
        let mut res: Vec<(u64, bool)> = Vec::new();
        let ghost all = vstd::std_specs::hash::spec_hash_map_iter(&self.peers).remaining();
        for e in it: self.peers.iter()
            invariant
                it.seq() == all,
                all.no_duplicates(),
                res@ == all.take(it.index() as int).map_values(|e: (&u64, &bool)| (*e.0, *e.1)),
        {
            res.push((*e.0, *e.1));
        }
        proof {
            let m = self.peers@;
            assert(all.take(all.len() as int) =~= all);
            assert(res@ =~= all.map_values(|e: (&u64, &bool)| (*e.0, *e.1)));
            assert forall|i: int, j: int| 0 <= i < j < res.len() implies res@[i] != res@[j] by {
                assert(all[i] != all[j]);
            }
            assert forall|i: int| 0 <= i < res.len() implies self.view().peers.dom().contains(
                #[trigger] res@[i].0,
            ) && self.view().peers[res@[i].0] == res@[i].1 by {
                assert(m.contains_key(*all[i].0));
            }
            assert forall|p: u64| #[trigger] self.view().peers.dom().contains(p) implies res@.contains(
                (p, self.view().peers[p]),
            ) by {
                assert(m.contains_key(p));
                assert(all.contains((&p, &m[p])));
                let i = choose|i: int| 0 <= i < all.len() && all[i] == (&p, &m[p]);
                assert(res@[i] == (p, m[p]));
            }
        }
        res
    }

    /// Admits a connecting peer or refuses it: the handshake must have decoded and name the
    /// same genesis, the peer must not be connected already, reserved nodes must be full
    /// nodes, and other peers need a free slot of their kind.
    pub fn on_new_connection(&mut self, peer_id: u64, handshake: Option<Handshake>, is_inbound: bool) -> (res: Result<(), ConnectionError>)
        requires
            old(self).wf(),
        ensures
            final(self).wf(),
            res == admission(old(self).view(), peer_id, handshake, is_inbound),
            res is Ok ==> final(self).view() == admitted(
                old(self).view(),
                peer_id,
                handshake->0,
                is_inbound,
            ),
            res is Err ==> final(self).view() == old(self).view(),
    {
        let handshake = match handshake {
            None => return Err(ConnectionError::BadlyEncodedHandshake),
            Some(handshake) => handshake,
        };
        if !hash_eq(&handshake.genesis_hash, &self.genesis_hash) {
            return Err(ConnectionError::BadHandshakeGenesis);
        }
        if self.peers.contains_key(&peer_id) {
            return Err(ConnectionError::PeerAlreadyConnected);
        }
        let is_reserved = self.reserved_nodes.contains(&peer_id);
        if is_reserved && !handshake.is_full {
            return Err(ConnectionError::NonFullReservedNode);
        }
        if !is_reserved {
            if handshake.is_full && self.full_non_reserved_peers.len() >= self.max_full_non_reserved_peers {
                return Err(ConnectionError::TooManyFullPeers);
            }
            if handshake.is_full && is_inbound && self.num_inbound_peers >= self.max_inbound_peers {
                return Err(ConnectionError::TooManyFullInboundPeers);
            }
            let light = self.peers.len().wrapping_sub(self.full_non_reserved_peers.len()).wrapping_sub(
                self.reserved_nodes.len(),
            );
            if !handshake.is_full && light >= self.max_light_peers {
                return Err(ConnectionError::TooManyLightNodes);
            }
        }
        self.peers.insert(peer_id, handshake.is_full);
        if is_reserved {
            self.reserved_peers.insert(peer_id);
        } else if handshake.is_full {
            self.full_non_reserved_peers.insert(peer_id);
            if is_inbound {
                self.num_inbound_peers = self.num_inbound_peers + 1;
            }
        }
        proof {
            assert(self.view() =~= admitted(old(self).view(), peer_id, handshake, is_inbound));
        }
        Ok(())
    }
}

} // verus!
