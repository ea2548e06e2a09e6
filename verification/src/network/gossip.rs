//! The gossip layer: which peers are connected under which protocol, what a network event
//! does to that, which messages are handed to the users, and how a peer is picked at random.
use std::collections::HashSet;

use vstd::prelude::*;
use vstd::string::StringExecFns;
use vstd::std_specs::hash::spec_hash_keys_iter;
use vstd::std_specs::iter::IteratorSpec;

use crate::scale::Data;

verus! {

broadcast use vstd::std_specs::hash::group_hash_axioms;

/// The protocols the gossip layer runs.
#[derive(Clone, Copy, Debug, PartialEq, Eq, Structural, Hash)]
pub enum Protocol {
    /// Validator authentications.
    Authentication,
    /// Block synchronization.
    BlockSync,
}

/// Why the gossip service stopped.
#[derive(Clone, Copy, Debug, PartialEq, Eq, Structural)]
pub enum GossipServiceError {
    NetworkStreamTerminated,
    AuthorizationStreamTerminated,
    BlockSyncStreamTerminated,
    UnableToForwardMessageToUser,
}

impl GossipServiceError {
    /// What the error says.
    pub fn message(&self) -> (res: String)
        ensures
            res@ == match self {
                GossipServiceError::NetworkStreamTerminated => "Network event stream ended."@,
                GossipServiceError::AuthorizationStreamTerminated => "Authentication user message stream ended."@,
                GossipServiceError::BlockSyncStreamTerminated => "Block sync user message stream ended."@,
                GossipServiceError::UnableToForwardMessageToUser => "Cannot forward messages to user."@,
            },
    {
        match self {
            GossipServiceError::NetworkStreamTerminated => String::from_str(
                "Network event stream ended.",
            ),
            GossipServiceError::AuthorizationStreamTerminated => String::from_str(
                "Authentication user message stream ended.",
            ),
            GossipServiceError::BlockSyncStreamTerminated => String::from_str(
                "Block sync user message stream ended.",
            ),
            GossipServiceError::UnableToForwardMessageToUser => String::from_str(
                "Cannot forward messages to user.",
            ),
        }
    }
}

/// Why data could not be sent to a peer.
#[derive(Clone, Copy, Debug, PartialEq, Eq, Structural)]
pub enum SendError {
    /// The peer has no sender: it is not connected under the protocol.
    MissingSender,
    /// The peer's sender did not take the data.
    SendingFailed,
}

/// A peer, by the number the network layer gave it.
pub type PeerId = u64;

/// What the network reports.
#[derive(Clone, Debug)]
pub enum Event<P> {
    StreamOpened(P, Protocol),
    StreamClosed(P, Protocol),
    Messages(P, Vec<(Protocol, Vec<u8>)>),
}

/// The peers connected under `protocol` after `event`, when `peers` were before: an opened
/// stream of the protocol connects its peer, a closed one disconnects it, and nothing else
/// changes them.
pub open spec fn after_event(peers: Set<u64>, event: Event<u64>, protocol: Protocol) -> Set<u64> {
    match event {
        Event::StreamOpened(peer, q) => if q == protocol {
            peers.insert(peer)
        } else {
            peers
        },
        Event::StreamClosed(peer, q) => if q == protocol {
            peers.remove(peer)
        } else {
            peers
        },
        Event::Messages(_, _) => peers,
    }
}

/// The peers connected under `protocol` after the events `events`, one after another, when
/// `peers` were before.
pub open spec fn after_events(peers: Set<u64>, events: Seq<Event<u64>>, protocol: Protocol) -> Set<
    u64,
>
    decreases events.len(),
{
    if events.len() == 0 {
        peers
    } else {
        after_event(after_events(peers, events.drop_last(), protocol), events.last(), protocol)
    }
}

/// Whether the last stream event of `peer` under `protocol` among `events` opened a stream;
/// `false` when there is none.
pub open spec fn last_stream_opened(events: Seq<Event<u64>>, peer: u64, protocol: Protocol) -> bool
    decreases events.len(),
{
    if events.len() == 0 {
        false
    } else {
        match events.last() {
            Event::StreamOpened(p, q) if p == peer && q == protocol => true,
            Event::StreamClosed(p, q) if p == peer && q == protocol => false,
            _ => last_stream_opened(events.drop_last(), peer, protocol),
        }
    }
}

/// Applying one more event after `events` is applying `after_event` to what `events` gave.
pub proof fn lemma_after_events_push(
    peers: Set<u64>,
    events: Seq<Event<u64>>,
    event: Event<u64>,
    protocol: Protocol,
)
    ensures
        after_events(peers, events.push(event), protocol) == after_event(
            after_events(peers, events, protocol),
            event,
            protocol,
        ),
{
    assert(events.push(event).drop_last() =~= events);
}

/// Starting with no peer connected, a peer is connected under a protocol exactly when its
/// last stream event under that protocol opened a stream: a peer whose stream was closed,
/// and not opened again since, or never opened, is not connected, whatever happened under
/// the other protocol, so data for it finds no sender.
pub proof fn lemma_connected_iff_last_stream_opened(
    events: Seq<Event<u64>>,
    peer: u64,
    protocol: Protocol,
)
    ensures
        after_events(Set::empty(), events, protocol).contains(peer) <==> last_stream_opened(
            events,
            peer,
            protocol,
        ),
    decreases events.len(),
{
    if events.len() > 0 {
        lemma_connected_iff_last_stream_opened(events.drop_last(), peer, protocol);
    }
}

/// The peers connected under each protocol.
pub struct ConnectedPeers {
    authentication: HashSet<u64>,
    block_sync: HashSet<u64>,
}

impl ConnectedPeers {
    /// The peers connected under `protocol`.
    pub closed spec fn peers(&self, protocol: Protocol) -> Set<u64> {
        match protocol {
            Protocol::Authentication => self.authentication@,
            Protocol::BlockSync => self.block_sync@,
        }
    }

    /// No peer is connected.
    pub fn new() -> (res: ConnectedPeers)
        ensures
            forall|p: Protocol| #[trigger] res.peers(p) == Set::<u64>::empty(),
    {
        ConnectedPeers { authentication: HashSet::new(), block_sync: HashSet::new() }
    }

    /// Whether `peer` is connected under `protocol`.
    pub fn is_connected(&self, peer: u64, protocol: Protocol) -> (res: bool)
        ensures
            res == self.peers(protocol).contains(peer),
    {
        match protocol {
            Protocol::Authentication => self.authentication.contains(&peer),
            Protocol::BlockSync => self.block_sync.contains(&peer),
        }
    }

    /// The number of peers connected under `protocol`.
    pub fn count(&self, protocol: Protocol) -> (res: usize)
        ensures
            res == self.peers(protocol).len(),
    {
        match protocol {
            Protocol::Authentication => self.authentication.len(),
            Protocol::BlockSync => self.block_sync.len(),
        }
    }

    /// Notes that `peer` connected under `protocol`.
    pub fn add(&mut self, peer: u64, protocol: Protocol)
        ensures
            final(self).peers(protocol) == old(self).peers(protocol).insert(peer),
            forall|p: Protocol| p != protocol ==> #[trigger] final(self).peers(p) == old(self).peers(p),
    {
        match protocol {
            Protocol::Authentication => {
                self.authentication.insert(peer);
            },
            Protocol::BlockSync => {
                self.block_sync.insert(peer);
            },
        }
    }

    /// Notes that `peer` disconnected under `protocol`.
    pub fn remove(&mut self, peer: u64, protocol: Protocol)
        ensures
            final(self).peers(protocol) == old(self).peers(protocol).remove(peer),
            forall|p: Protocol| p != protocol ==> #[trigger] final(self).peers(p) == old(self).peers(p),
    {
        match protocol {
            Protocol::Authentication => {
                self.authentication.remove(&peer);
            },
            Protocol::BlockSync => {
                self.block_sync.remove(&peer);
            },
        }
    }

    /// The peers connected under `protocol`, each once: those a broadcast goes to.
    pub fn broadcast_targets(&self, protocol: Protocol) -> (res: Vec<u64>)
        ensures
            res@.to_set() == self.peers(protocol),
            res@.no_duplicates(),
    {
        let set = match protocol {
            Protocol::Authentication => &self.authentication,
            Protocol::BlockSync => &self.block_sync,
        };
        set_elements(set)
    }

    /// The peers among `peer_ids` that are connected under `protocol`, or, when there are
    /// none, all the peers connected under it: the candidates for a send to a random peer.
    pub fn random_peer_candidates(&self, peer_ids: &HashSet<u64>, protocol: Protocol) -> (res: Vec<
        u64,
    >)
        ensures
            res@.no_duplicates(),
            res@.to_set() == if peer_ids@.intersect(self.peers(protocol)).is_empty() {
                self.peers(protocol)
            } else {
                peer_ids@.intersect(self.peers(protocol))
            },
    {
        let connected = match protocol {
            Protocol::Authentication => &self.authentication,
            Protocol::BlockSync => &self.block_sync,
        };
        let wanted = set_elements(peer_ids);
        let mut chosen: Vec<u64> = Vec::new();
        let mut i: usize = 0;
        while i < wanted.len()
            invariant
                i <= wanted.len(),
                wanted@.to_set() == peer_ids@,
                wanted@.no_duplicates(),
                chosen@.no_duplicates(),
                connected@ == self.peers(protocol),
                forall|k: int|
                    0 <= k < chosen.len() ==> exists|j: int|
                        0 <= j < i && wanted@[j] == #[trigger] chosen@[k],
                forall|k: int| 0 <= k < chosen.len() ==> connected@.contains(#[trigger] chosen@[k]),
                forall|j: int|
                    0 <= j < i && connected@.contains(#[trigger] wanted@[j]) ==> chosen@.contains(
                        wanted@[j],
                    ),
            decreases wanted.len() - i,
        {
            let x = wanted[i];
            if connected.contains(&x) {
                proof {
                    assert forall|k: int| 0 <= k < chosen.len() implies chosen@[k] != x by {
                        let j = choose|j: int| 0 <= j < i && wanted@[j] == #[trigger] chosen@[k];
                        assert(wanted@[j] != wanted@[i as int]);
                    }
                }
                let ghost prev = chosen@;
                chosen.push(x);
                proof {
                    assert forall|k: int| 0 <= k < chosen.len() implies exists|j: int|
                        0 <= j < i + 1 && wanted@[j] == #[trigger] chosen@[k] by {
                        if k == chosen.len() - 1 {
                            assert(wanted@[i as int] == chosen@[k]);
                        } else {
                            let j = choose|j: int| 0 <= j < i && wanted@[j] == #[trigger] chosen@[k];
                            assert(wanted@[j] == chosen@[k]);
                        }
                    }
                    assert forall|j: int| 0 <= j < i + 1 && connected@.contains(
                        #[trigger] wanted@[j],
                    ) implies chosen@.contains(wanted@[j]) by {
                        if j == i {
                            assert(chosen@[chosen.len() - 1] == x);
                        } else {
                            assert(prev.contains(wanted@[j]));
                            let k = choose|k: int| 0 <= k < prev.len() && prev[k] == wanted@[j];
                            assert(chosen@[k] == prev[k]);
                        }
                    }
                }
            }
            i = i + 1;
        }
        proof {
            assert(chosen@.to_set() =~= peer_ids@.intersect(self.peers(protocol))) by {
                assert forall|x: u64| chosen@.to_set().contains(x) implies peer_ids@.intersect(
                    self.peers(protocol),
                ).contains(x) by {
                    let k = choose|k: int| 0 <= k < chosen.len() && chosen@[k] == x;
                    let j = choose|j: int| 0 <= j < wanted.len() && wanted@[j] == #[trigger] chosen@[k];
                    assert(wanted@.to_set().contains(wanted@[j]));
                }
                assert forall|x: u64| peer_ids@.intersect(self.peers(protocol)).contains(x) implies chosen@.to_set().contains(x) by {
                    assert(wanted@.to_set().contains(x));
                    let j = choose|j: int| 0 <= j < wanted.len() && wanted@[j] == x;
                    assert(connected@.contains(wanted@[j]));
                }
            }
        }
        if chosen.len() == 0 {
            proof {
                assert(chosen@.to_set() =~= Set::<u64>::empty());
            }
            set_elements(connected)
        } else {
            proof {
                assert(chosen@.to_set().contains(chosen@[0]));
            }
            chosen
        }
    }

    /// A peer picked at random among `peer_ids` that are connected under `protocol`, or, when
    /// there are none, among all the peers connected under it; `None` when no peer is
    /// connected under it.
    pub fn random_peer(&self, peer_ids: &HashSet<u64>, protocol: Protocol) -> (res: Option<u64>)
        ensures
            match res {
                Some(p) => if peer_ids@.intersect(self.peers(protocol)).is_empty() {
                    self.peers(protocol).contains(p)
                } else {
                    peer_ids@.intersect(self.peers(protocol)).contains(p)
                },
                None => self.peers(protocol).is_empty(),
            },
    {
        let candidates = self.random_peer_candidates(peer_ids, protocol);
        if candidates.len() == 0 {
            proof {
                assert(candidates@.to_set() =~= Set::<u64>::empty());
                if !peer_ids@.intersect(self.peers(protocol)).is_empty() {
                    let x = peer_ids@.intersect(self.peers(protocol)).choose();
                    assert(candidates@.to_set().contains(x));
                }
            }
            None
        } else {
            let i = random_index(candidates.len());
            let p = candidates[i];
            proof {
                assert(candidates@.to_set().contains(candidates@[i as int]));
            }
            Some(p)
        }
    }

    /// Where data for `peer` under `protocol` goes: to the peer's sender, which exists
    /// exactly while the peer is connected under the protocol; otherwise nothing is sent.
    pub fn send_to_peer<D>(&self, data: D, peer: u64, protocol: Protocol) -> (res: Result<
        (u64, D),
        SendError,
    >)
        ensures
            res == if self.peers(protocol).contains(peer) {
                Ok::<(u64, D), SendError>((peer, data))
            } else {
                Err(SendError::MissingSender)
            },
    {
        if self.is_connected(peer, protocol) {
            Ok((peer, data))
        } else {
            Err(SendError::MissingSender)
        }
    }

    /// Where authentication data for `peer` goes: see `send_to_peer`.
    pub fn send_to_authentication_peer<AD>(&self, data: AD, peer: u64) -> (res: Result<
        (u64, AD),
        SendError,
    >)
        ensures
            res == if self.peers(Protocol::Authentication).contains(peer) {
                Ok::<(u64, AD), SendError>((peer, data))
            } else {
                Err(SendError::MissingSender)
            },
    {
        self.send_to_peer(data, peer, Protocol::Authentication)
    }

    /// Where block sync data for `peer` goes: see `send_to_peer`.
    pub fn send_to_block_sync_peer<BSD>(&self, data: BSD, peer: u64) -> (res: Result<
        (u64, BSD),
        SendError,
    >)
        ensures
            res == if self.peers(Protocol::BlockSync).contains(peer) {
                Ok::<(u64, BSD), SendError>((peer, data))
            } else {
                Err(SendError::MissingSender)
            },
    {
        self.send_to_peer(data, peer, Protocol::BlockSync)
    }

    /// Applies a network event: an opened stream connects the peer under its protocol, a
    /// closed one disconnects it, and each message that decodes as the data of its protocol
    /// is handed on with the peer it came from; the others are dropped.
    pub fn handle_network_event<AD: Data, BSD: Data>(&mut self, event: Event<u64>) -> (res:
        EventOutcome<AD, BSD>)
        ensures
            forall|p: Protocol| #[trigger] final(self).peers(p) == after_event(old(self).peers(p), event, p),
            match event {
                Event::StreamOpened(peer, protocol) => {
                    &&& final(self).peers(protocol) == old(self).peers(protocol).insert(peer)
                    &&& forall|p: Protocol| p != protocol ==> #[trigger] final(self).peers(p) == old(self).peers(p)
                    &&& res == EventOutcome::<AD, BSD>::StartSender(peer, protocol)
                },
                Event::StreamClosed(peer, protocol) => {
                    &&& final(self).peers(protocol) == old(self).peers(protocol).remove(peer)
                    &&& forall|p: Protocol| p != protocol ==> #[trigger] final(self).peers(p) == old(self).peers(p)
                    &&& res == EventOutcome::<AD, BSD>::StopSender(peer, protocol)
                },
                Event::Messages(peer, messages) => {
                    &&& forall|p: Protocol| #[trigger] final(self).peers(p) == old(self).peers(p)
                    &&& res matches EventOutcome::Deliver(auth, sync) && auth@.map_values(
                        |m: (AD, u64)| (m.0@, m.1),
                    ) == decoded_for::<AD>(messages@, Protocol::Authentication, peer)
                        && sync@.map_values(|m: (BSD, u64)| (m.0@, m.1)) == decoded_for::<BSD>(
                        messages@,
                        Protocol::BlockSync,
                        peer,
                    )
                },
            },
    {
        match event {
            Event::StreamOpened(peer, protocol) => {
                self.add(peer, protocol);
                EventOutcome::StartSender(peer, protocol)
            },
            Event::StreamClosed(peer, protocol) => {
                self.remove(peer, protocol);
                EventOutcome::StopSender(peer, protocol)
            },
            Event::Messages(peer, messages) => {
                let auth = decode_messages::<AD>(&messages, Protocol::Authentication, peer);
                let sync = decode_messages::<BSD>(&messages, Protocol::BlockSync, peer);
                EventOutcome::Deliver(auth, sync)
            },
        }
    }
}

/// What the service does after a network event: start or stop the sender task of a peer,
/// or hand decoded messages to the authentication and block sync users.
pub enum EventOutcome<AD, BSD> {
    StartSender(u64, Protocol),
    StopSender(u64, Protocol),
    Deliver(Vec<(AD, u64)>, Vec<(BSD, u64)>),
}

/// What decoding gives for the message bytes `bytes` as data of type `D`.
pub open spec fn decoded<D: Data>(bytes: Seq<u8>) -> Option<D::V> {
    match D::decoding_of(bytes) {
        Some((v, _)) => Some(v),
        None => None,
    }
}

/// The views of the messages of `protocol` among `messages` that decode, in order, each with
/// the peer `peer`.
pub open spec fn decoded_for<D: Data>(
    messages: Seq<(Protocol, Vec<u8>)>,
    protocol: Protocol,
    peer: u64,
) -> Seq<(D::V, u64)>
    decreases messages.len(),
{
    if messages.len() == 0 {
        Seq::empty()
    } else {
        let rest = decoded_for::<D>(messages.drop_last(), protocol, peer);
        let last = messages.last();
        if last.0 == protocol {
            match decoded::<D>(last.1@) {
                Some(v) => rest.push((v, peer)),
                None => rest,
            }
        } else {
            rest
        }
    }
}

fn decode_messages<D: Data>(messages: &Vec<(Protocol, Vec<u8>)>, protocol: Protocol, peer: u64) -> (res:
    Vec<(D, u64)>)
    ensures
        res@.map_values(|m: (D, u64)| (m.0@, m.1)) == decoded_for::<D>(messages@, protocol, peer),
{
    let mut res: Vec<(D, u64)> = Vec::new();
    let mut i: usize = 0;
    while i < messages.len()
        invariant
            i <= messages.len(),
            res@.map_values(|m: (D, u64)| (m.0@, m.1)) == decoded_for::<D>(
                messages@.subrange(0, i as int),
                protocol,
                peer,
            ),
        decreases messages.len() - i,
    {
        let ghost before = res@;
        assert(messages@.subrange(0, i + 1).drop_last() =~= messages@.subrange(0, i as int));
        if messages[i].0 == protocol {
            match D::decode(messages[i].1.as_slice()) {
                Some((data, _)) => {
                    res.push((data, peer));
                    assert(res@.map_values(|m: (D, u64)| (m.0@, m.1)) =~= before.map_values(
                        |m: (D, u64)| (m.0@, m.1),
                    ).push((data@, peer)));
                },
                None => {},
            }
        }
        i = i + 1;
    }
    assert(messages@.subrange(0, messages.len() as int) =~= messages@);
    res
}

/// The elements of a set, each once.
pub(crate) fn set_elements(set: &HashSet<u64>) -> (res: Vec<u64>)
    ensures
        res@.to_set() == set@,
        res@.no_duplicates(),
{
    let mut res: Vec<u64> = Vec::new();
    let ghost all = spec_hash_keys_iter(set).remaining().unref();
    for x in it: set.iter()
        invariant
            it.seq().unref() == all,
            all.to_set() == set@,
            all.no_duplicates(),
            res@ == all.take(it.index() as int),
    {
        res.push(*x);
    }
    assert(all.take(all.len() as int) =~= all);
    res
}

/// A random index below `len`, from the thread-local generator of the `rand` crate.
#[verifier::external_body]
pub(crate) fn random_index(len: usize) -> (res: usize)
    requires
        len > 0,
    ensures
        res < len,
{
    rand::Rng::gen_range(&mut rand::thread_rng(), 0..len)
}

} // verus!
