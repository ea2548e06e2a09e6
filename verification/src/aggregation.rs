//! Aggregation of signatures over block hashes: the signed hashes come out in the order in
//! which their aggregation was started.
use vstd::prelude::*;

use crate::primitives::{hash_eq, BlockHash};

verus! {

/// A seed for the mock signatures.
pub const MAGIC_NUMBER: u32 = 42;

/// A mock signature, for tests of the aggregator.
#[derive(Copy, Clone, Debug, Eq, Hash, PartialEq, Structural)]
pub struct TestSignature(pub u32);

/// A mock multisignature, for tests of the aggregator.
#[derive(Clone, Debug, PartialEq, Eq)]
pub struct TestMultisignature(pub Vec<TestSignature>);

impl TestMultisignature {
    /// A multisignature holding the one mock signature.
    pub fn generate() -> (res: TestMultisignature)
        ensures
            res.0@ == seq![TestSignature(MAGIC_NUMBER)],
    {
        TestMultisignature(vec![TestSignature(MAGIC_NUMBER)])
    }
}

/// Adapts a data network to the aggregator.
pub struct NetworkWrapper<N>(pub N);

impl<N> NetworkWrapper<N> {
    pub fn new(network: N) -> (res: NetworkWrapper<N>)
        ensures
            res.0 == network,
    {
        NetworkWrapper(network)
    }
}

/// The three outcomes of processing network messages.
#[derive(Clone, Copy, Debug, PartialEq, Eq, Structural)]
pub enum NetworkResult {
    NetworkChannelClosed,
    SignatureInserted,
    Noop,
}

/// No key occurs twice among `entries`.
pub open spec fn unique_keys<S>(entries: Seq<([u8; 32], S)>) -> bool {
    forall|i: int, j: int|
        0 <= i < j < entries.len() ==> #[trigger] entries[i].0 != #[trigger] entries[j].0
}

/// The position of `h` among the keys of `entries`, if it is there.
pub open spec fn entry_index<S>(entries: Seq<([u8; 32], S)>, h: [u8; 32]) -> Option<int> {
    if exists|i: int| 0 <= i < entries.len() && #[trigger] entries[i].0 == h {
        Some(choose|i: int| 0 <= i < entries.len() && #[trigger] entries[i].0 == h)
    } else {
        None
    }
}

/// The entries as a map from keys to values.
pub open spec fn entries_map<S>(entries: Seq<([u8; 32], S)>) -> Map<[u8; 32], S> {
    Map::new(
        |h: [u8; 32]| entry_index(entries, h) is Some,
        |h: [u8; 32]| entries[entry_index(entries, h)->0].1,
    )
}

proof fn lemma_index_of<S>(entries: Seq<([u8; 32], S)>, h: [u8; 32], i: int)
    requires
        unique_keys(entries),
        0 <= i < entries.len(),
        entries[i].0 == h,
    ensures
        entry_index(entries, h) == Some(i),
{
    let j = choose|j: int| 0 <= j < entries.len() && #[trigger] entries[j].0 == h;
    if j < i {
        assert(entries[j].0 != entries[i].0);
    } else if i < j {
        assert(entries[i].0 != entries[j].0);
    }
}

proof fn lemma_map_contains<S>(entries: Seq<([u8; 32], S)>, h: [u8; 32])
    requires
        unique_keys(entries),
    ensures
        entries_map(entries).dom().contains(h) <==> exists|i: int|
            0 <= i < entries.len() && #[trigger] entries[i].0 == h,
        forall|i: int|
            0 <= i < entries.len() && #[trigger] entries[i].0 == h ==> entries_map(entries)[h]
                == entries[i].1,
{
    assert forall|i: int| 0 <= i < entries.len() && #[trigger] entries[i].0 == h implies entries_map(
        entries,
    )[h] == entries[i].1 by {
        lemma_index_of(entries, h, i);
    }
}

/// What the aggregator has to say next.
pub enum NextMultisigned<S> {
    /// The multisignature of the oldest hash whose aggregation is pending.
    Ready(BlockHash, S),
    /// The last hash was placed and every hash was handed out: aggregation is over.
    Finished,
    /// Network messages must be processed until a new signature arrives.
    Pending,
}

/// What the aggregator's select loop got: a multisigned hash from the multicast, a message
/// the multicast wants sent (or the end of its channel), or a message from the network (or
/// the end of the network).
pub enum AggregatorInput<S, D> {
    Multisigned(BlockHash, S),
    FromMulticast(Option<D>),
    FromNetwork(Option<D>),
}

/// What the select loop does with its input besides storing signatures.
pub enum AggregatorAction<D> {
    /// Send the multicast's message to everyone.
    SendToEveryone(D),
    /// Hand the network's message to the multicast.
    ForwardToMulticast(D),
    Nothing,
}

/// The bookkeeping of the signature aggregator.
pub struct BlockSignatureAggregator<S> {
    signatures: Vec<(BlockHash, S)>,
    hash_queue: Vec<BlockHash>,
    started_hashes: Vec<BlockHash>,
    last_hash_placed: bool,
}

impl<S> BlockSignatureAggregator<S> {
    /// The hashes whose multisignatures are still to be handed out, oldest first.
    pub closed spec fn queue(&self) -> Seq<[u8; 32]> {
        self.hash_queue@.map_values(|h: BlockHash| h@)
    }

    /// The hashes whose aggregation was ever started.
    pub closed spec fn started(&self) -> Set<[u8; 32]> {
        self.started_hashes@.map_values(|h: BlockHash| h@).to_set()
    }

    /// The hashes whose aggregation was started, in the order it started.
    pub closed spec fn started_order(&self) -> Seq<[u8; 32]> {
        self.started_hashes@.map_values(|h: BlockHash| h@)
    }

    /// The hashes whose multisignatures were handed out so far, in the order handed out.
    pub closed spec fn handed_out(&self) -> Seq<[u8; 32]> {
        self.started_order().take(self.started_order().len() - self.queue().len())
    }

    closed spec fn entries(&self) -> Seq<([u8; 32], S)> {
        self.signatures@.map_values(|e: (BlockHash, S)| (e.0@, e.1))
    }

    /// The multisignatures that arrived and were not handed out yet, by hash.
    pub closed spec fn signatures(&self) -> Map<[u8; 32], S> {
        entries_map(self.entries())
    }

    pub closed spec fn last_hash_placed(&self) -> bool {
        self.last_hash_placed
    }

    /// No hash has a signature twice, no hash was started twice, and the pending hashes are
    /// the last ones started.
    pub closed spec fn wf(&self) -> bool {
        &&& unique_keys(self.entries())
        &&& self.started_order().no_duplicates()
        &&& self.queue().len() <= self.started_order().len()
        &&& self.started_order().skip(self.started_order().len() - self.queue().len())
            == self.queue()
    }

    /// Hashes are handed out in the order their aggregation started, each at most once:
    /// the hashes handed out so far followed by the pending ones are all the started hashes,
    /// in start order, and no hash was started twice.
    pub proof fn lemma_handed_out_in_start_order(&self)
        requires
            self.wf(),
        ensures
            self.handed_out() + self.queue() == self.started_order(),
            self.started_order().no_duplicates(),
    {
        let so = self.started_order();
        let k = so.len() - self.queue().len();
        assert(so.take(k) + so.skip(k) =~= so);
    }

    pub fn new() -> (res: BlockSignatureAggregator<S>)
        ensures
            res.wf(),
            res.queue() == Seq::<[u8; 32]>::empty(),
            res.started() == Set::<[u8; 32]>::empty(),
            res.started_order() == Seq::<[u8; 32]>::empty(),
            res.handed_out() == Seq::<[u8; 32]>::empty(),
            res.signatures() == Map::<[u8; 32], S>::empty(),
            !res.last_hash_placed(),
    {
        let res = BlockSignatureAggregator {
            signatures: Vec::new(),
            hash_queue: Vec::new(),
            started_hashes: Vec::new(),
            last_hash_placed: false,
        };
        assert(res.started() =~= Set::<[u8; 32]>::empty());
        assert(res.queue() =~= Seq::<[u8; 32]>::empty());
        assert(res.started_order() =~= Seq::<[u8; 32]>::empty());
        assert(res.handed_out() =~= Seq::<[u8; 32]>::empty());
        assert(res.signatures() =~= Map::<[u8; 32], S>::empty());
        res
    }

    fn is_started(&self, hash: &BlockHash) -> (res: bool)
        ensures
            res == self.started().contains(hash@),
    {
        let mut i: usize = 0;
        while i < self.started_hashes.len()
            invariant
                i <= self.started_hashes.len(),
                forall|j: int| 0 <= j < i ==> self.started_hashes@[j]@ != hash@,
            decreases self.started_hashes.len() - i,
        {
            if hash_eq(&self.started_hashes[i], hash) {
                proof {
                    assert(self.started_hashes@.map_values(|h: BlockHash| h@)[i as int] == hash@);
                }
                return true;
            }
            i = i + 1;
        }
        proof {
            if self.started().contains(hash@) {
                let hs = self.started_hashes@.map_values(|h: BlockHash| h@);
                let j = choose|j: int| 0 <= j < hs.len() && #[trigger] hs[j] == hash@;
                assert(self.started_hashes@[j]@ == hash@);
            }
        }
        false
    }

    /// Starts the aggregation for `hash`, unless it was started before. Returns whether it
    /// started now; then the hash joins the queue, and the caller starts the multicast.
    pub fn start_aggregation(&mut self, hash: BlockHash) -> (res: bool)
        requires
            old(self).wf(),
        ensures
            final(self).wf(),
            res == !old(self).started().contains(hash@),
            final(self).started() == old(self).started().insert(hash@),
            final(self).queue() == if res {
                old(self).queue().push(hash@)
            } else {
                old(self).queue()
            },
            final(self).started_order() == if res {
                old(self).started_order().push(hash@)
            } else {
                old(self).started_order()
            },
            final(self).handed_out() == old(self).handed_out(),
            final(self).signatures() == old(self).signatures(),
            final(self).last_hash_placed() == old(self).last_hash_placed(),
    {
        if self.is_started(&hash) {
            proof {
                assert(old(self).started().insert(hash@) =~= old(self).started());
            }
            return false;
        }
        self.started_hashes.push(hash);
        self.hash_queue.push(hash);
        proof {
            assert(self.started_hashes@.map_values(|h: BlockHash| h@) =~= old(self).started_hashes@.map_values(
                |h: BlockHash| h@,
            ).push(hash@));
            old(self).started_hashes@.map_values(|h: BlockHash| h@).lemma_push_to_set_commute(hash@);
            assert(self.started() =~= old(self).started().insert(hash@));
            assert(self.queue() =~= old(self).queue().push(hash@));
            let so = old(self).started_order();
            let k = so.len() - old(self).queue().len();
            assert(self.started_order() =~= so.push(hash@));
            assert(!so.contains(hash@)) by {
                if so.contains(hash@) {
                    assert(old(self).started().contains(hash@));
                }
            }
            assert(self.started_order().no_duplicates()) by {
                assert forall|a: int, b: int|
                    0 <= a < self.started_order().len() && 0 <= b < self.started_order().len() && a
                        != b implies self.started_order()[a] != self.started_order()[b] by {
                    if a < so.len() && b < so.len() {
                        assert(self.started_order()[a] == so[a]);
                        assert(self.started_order()[b] == so[b]);
                    } else if a < so.len() {
                        assert(self.started_order()[a] == so[a]);
                    } else {
                        assert(self.started_order()[b] == so[b]);
                    }
                }
            }
            assert(so.push(hash@).skip(k) =~= so.skip(k).push(hash@));
            assert(so.push(hash@).take(k) =~= so.take(k));
        }
        true
    }

    /// Notes that no more hashes will be started.
    pub fn notify_last_hash(&mut self)
        ensures
            final(self).last_hash_placed(),
            final(self).queue() == old(self).queue(),
            final(self).started_order() == old(self).started_order(),
            final(self).handed_out() == old(self).handed_out(),
            final(self).started() == old(self).started(),
            final(self).signatures() == old(self).signatures(),
            final(self).wf() == old(self).wf(),
    {
        self.last_hash_placed = true;
    }

    fn signature_index(&self, hash: &BlockHash) -> (res: Option<usize>)
        requires
            self.wf(),
        ensures
            match res {
                Some(i) => i < self.signatures@.len() && self.signatures@[i as int].0@ == hash@
                    && entry_index(self.entries(), hash@) == Some(i as int),
                None => !self.signatures().dom().contains(hash@),
            },
    {
        let mut i: usize = 0;
        while i < self.signatures.len()
            invariant
                self.wf(),
                i <= self.signatures.len(),
                forall|j: int| 0 <= j < i ==> self.signatures@[j].0@ != hash@,
            decreases self.signatures.len() - i,
        {
            if hash_eq(&self.signatures[i].0, hash) {
                proof {
                    assert(self.entries()[i as int].0 == hash@);
                    lemma_index_of(self.entries(), hash@, i as int);
                }
                return Some(i);
            }
            i = i + 1;
        }
        proof {
            if self.signatures().dom().contains(hash@) {
                let es = self.entries();
                let j = choose|j: int| 0 <= j < es.len() && #[trigger] es[j].0 == hash@;
                assert(self.signatures@[j].0@ == hash@);
            }
        }
        None
    }

    /// Stores the multisignature of `hash` that the multicast produced, replacing an earlier
    /// one of the same hash.
    pub fn on_multisigned(&mut self, hash: BlockHash, signature: S)
        requires
            old(self).wf(),
        ensures
            final(self).wf(),
            final(self).signatures() == old(self).signatures().insert(hash@, signature),
            final(self).queue() == old(self).queue(),
            final(self).started_order() == old(self).started_order(),
            final(self).handed_out() == old(self).handed_out(),
            final(self).started() == old(self).started(),
            final(self).last_hash_placed() == old(self).last_hash_placed(),
    {
        let ghost old_es = self.entries();
        match self.signature_index(&hash) {
            Some(i) => {
                self.signatures.set(i, (hash, signature));
                proof {
                    let es = self.entries();
                    assert(es =~= old_es.update(i as int, (hash@, signature)));
                    assert(unique_keys(es)) by {
                        assert forall|a: int, b: int| 0 <= a < b < es.len() implies #[trigger] es[a].0
                            != #[trigger] es[b].0 by {
                            assert(es[a].0 == old_es[a].0);
                            assert(es[b].0 == old_es[b].0);
                        }
                    }
                    lemma_map_contains(es, hash@);
                    lemma_map_contains(old_es, hash@);
                    assert(es[i as int].0 == hash@);
                    assert forall|h: [u8; 32]| #[trigger] entries_map(es).dom().contains(h)
                        == old(self).signatures().insert(hash@, signature).dom().contains(h) by {
                        lemma_map_contains(es, h);
                        lemma_map_contains(old_es, h);
                        if entries_map(old_es).dom().contains(h) {
                            let k = choose|k: int| 0 <= k < old_es.len() && #[trigger] old_es[k].0 == h;
                            assert(es[k].0 == h);
                        }
                        if entries_map(es).dom().contains(h) {
                            let k = choose|k: int| 0 <= k < es.len() && #[trigger] es[k].0 == h;
                            assert(old_es[k].0 == h);
                        }
                    }
                    assert forall|h: [u8; 32]| #[trigger] entries_map(es).dom().contains(h) implies entries_map(es)[h]
                        == old(self).signatures().insert(hash@, signature)[h] by {
                        lemma_map_contains(es, h);
                        lemma_map_contains(old_es, h);
                        let k = choose|k: int| 0 <= k < es.len() && #[trigger] es[k].0 == h;
                        assert(old_es[k].0 == h);
                    }
                    assert(entries_map(es) =~= old(self).signatures().insert(hash@, signature));
                }
            },
            None => {
                self.signatures.push((hash, signature));
                proof {
                    let es = self.entries();
                    assert(es =~= old_es.push((hash@, signature)));
                    assert(unique_keys(es)) by {
                        assert forall|a: int, b: int| 0 <= a < b < es.len() implies #[trigger] es[a].0
                            != #[trigger] es[b].0 by {
                            if b < old_es.len() {
                                assert(es[a].0 == old_es[a].0);
                                assert(es[b].0 == old_es[b].0);
                            } else {
                                assert(es[a].0 == old_es[a].0);
                                if old_es[a].0 == hash@ {
                                    lemma_map_contains(old_es, hash@);
                                }
                            }
                        }
                    }
                    assert(es[old_es.len() as int].0 == hash@);
                    lemma_map_contains(es, hash@);
                    assert forall|h: [u8; 32]| #[trigger] entries_map(es).dom().contains(h)
                        == old(self).signatures().insert(hash@, signature).dom().contains(h) by {
                        lemma_map_contains(es, h);
                        lemma_map_contains(old_es, h);
                        if h != hash@ && entries_map(old_es).dom().contains(h) {
                            let k = choose|k: int| 0 <= k < old_es.len() && #[trigger] old_es[k].0 == h;
                            assert(es[k].0 == h);
                        }
                        if h != hash@ && entries_map(es).dom().contains(h) {
                            let k = choose|k: int| 0 <= k < es.len() && #[trigger] es[k].0 == h;
                            assert(k < old_es.len() && old_es[k].0 == h);
                        }
                    }
                    assert forall|h: [u8; 32]| #[trigger] entries_map(es).dom().contains(h) implies entries_map(es)[h]
                        == old(self).signatures().insert(hash@, signature)[h] by {
                        lemma_map_contains(es, h);
                        lemma_map_contains(old_es, h);
                        let k = choose|k: int| 0 <= k < es.len() && #[trigger] es[k].0 == h;
                        if h != hash@ {
                            assert(k < old_es.len() && old_es[k].0 == h);
                        }
                    }
                    assert(entries_map(es) =~= old(self).signatures().insert(hash@, signature));
                }
            },
        }
    }

    /// Processes one input of the select loop: a multisigned hash is stored; messages are
    /// passed between the multicast and the network; the end of the network ends the
    /// aggregation, the end of the multicast's channel changes nothing.
    pub fn process_network_message<D>(&mut self, input: AggregatorInput<S, D>) -> (res: (
        NetworkResult,
        AggregatorAction<D>,
    ))
        requires
            old(self).wf(),
        ensures
            final(self).wf(),
            final(self).queue() == old(self).queue(),
            final(self).started_order() == old(self).started_order(),
            final(self).handed_out() == old(self).handed_out(),
            final(self).started() == old(self).started(),
            final(self).last_hash_placed() == old(self).last_hash_placed(),
            match input {
                AggregatorInput::Multisigned(h, s) => {
                    &&& res.0 == NetworkResult::SignatureInserted
                    &&& res.1 is Nothing
                    &&& final(self).signatures() == old(self).signatures().insert(h@, s)
                },
                AggregatorInput::FromMulticast(m) => {
                    &&& res.0 == NetworkResult::Noop
                    &&& match m {
                        Some(d) => res.1 == AggregatorAction::SendToEveryone(d),
                        None => res.1 is Nothing,
                    }
                    &&& final(self).signatures() == old(self).signatures()
                },
                AggregatorInput::FromNetwork(m) => {
                    &&& match m {
                        Some(d) => res.0 == NetworkResult::Noop && res.1
                            == AggregatorAction::ForwardToMulticast(d),
                        None => res.0 == NetworkResult::NetworkChannelClosed && res.1 is Nothing,
                    }
                    &&& final(self).signatures() == old(self).signatures()
                },
            },
    {
        match input {
            AggregatorInput::Multisigned(h, s) => {
                self.on_multisigned(h, s);
                (NetworkResult::SignatureInserted, AggregatorAction::Nothing)
            },
            AggregatorInput::FromMulticast(Some(d)) => (
                NetworkResult::Noop,
                AggregatorAction::SendToEveryone(d),
            ),
            AggregatorInput::FromMulticast(None) => (NetworkResult::Noop, AggregatorAction::Nothing),
            AggregatorInput::FromNetwork(Some(d)) => (
                NetworkResult::Noop,
                AggregatorAction::ForwardToMulticast(d),
            ),
            AggregatorInput::FromNetwork(None) => (
                NetworkResult::NetworkChannelClosed,
                AggregatorAction::Nothing,
            ),
        }
    }

    /// What comes next: the multisignature of the oldest pending hash, once it arrived
    /// (both leave the aggregator); the end, when the last hash was placed and nothing is
    /// pending; otherwise more network messages are needed.
    pub fn next_multisigned_hash(&mut self) -> (res: NextMultisigned<S>)
        requires
            old(self).wf(),
        ensures
            final(self).wf(),
            final(self).started_order() == old(self).started_order(),
            final(self).started() == old(self).started(),
            final(self).last_hash_placed() == old(self).last_hash_placed(),
            match res {
                NextMultisigned::Ready(h, s) => {
                    &&& old(self).queue().len() > 0
                    &&& h@ == old(self).queue()[0]
                    &&& old(self).signatures().dom().contains(h@)
                    &&& s == old(self).signatures()[h@]
                    &&& final(self).queue() == old(self).queue().drop_first()
                    &&& final(self).handed_out() == old(self).handed_out().push(h@)
                    &&& final(self).signatures() == old(self).signatures().remove(h@)
                },
                NextMultisigned::Finished => {
                    &&& old(self).queue().len() == 0
                    &&& final(self).handed_out() == old(self).handed_out()
                    &&& old(self).last_hash_placed()
                    &&& final(self).queue() == old(self).queue()
                    &&& final(self).signatures() == old(self).signatures()
                },
                NextMultisigned::Pending => {
                    &&& !(old(self).queue().len() > 0 && old(self).signatures().dom().contains(
                        old(self).queue()[0],
                    ))
                    &&& !(old(self).queue().len() == 0 && old(self).last_hash_placed())
                    &&& final(self).handed_out() == old(self).handed_out()
                    &&& final(self).queue() == old(self).queue()
                    &&& final(self).signatures() == old(self).signatures()
                },
            },
    {
        if self.hash_queue.len() == 0 {
            if self.last_hash_placed {
                return NextMultisigned::Finished;
            }
            return NextMultisigned::Pending;
        }
        let front = self.hash_queue[0];
        match self.signature_index(&front) {
            None => NextMultisigned::Pending,
            Some(i) => {
                let ghost old_es = self.entries();
                let (h, s) = self.signatures.remove(i);
                let q = self.hash_queue.remove(0);
                proof {
                    let es = self.entries();
                    assert(es =~= old_es.remove(i as int));
                    assert(unique_keys(es)) by {
                        assert forall|a: int, b: int| 0 <= a < b < es.len() implies #[trigger] es[a].0
                            != #[trigger] es[b].0 by {
                            let a2 = if a < i { a } else { a + 1 };
                            let b2 = if b < i { b } else { b + 1 };
                            assert(es[a] == old_es[a2]);
                            assert(es[b] == old_es[b2]);
                        }
                    }
                    lemma_map_contains(old_es, h@);
                    assert forall|k: [u8; 32]| #[trigger] entries_map(es).dom().contains(k)
                        == old(self).signatures().remove(h@).dom().contains(k) by {
                        lemma_map_contains(es, k);
                        lemma_map_contains(old_es, k);
                        if entries_map(old_es).dom().contains(k) && k != h@ {
                            let j = choose|j: int| 0 <= j < old_es.len() && #[trigger] old_es[j].0 == k;
                            assert(j != i);
                            let j2 = if j < i { j } else { j - 1 };
                            assert(es[j2].0 == k);
                        }
                    }
                    assert forall|k: [u8; 32]| #[trigger] entries_map(es).dom().contains(k) implies entries_map(es)[k]
                        == old(self).signatures().remove(h@)[k] by {
                        lemma_map_contains(es, k);
                        lemma_map_contains(old_es, k);
                        let j2 = choose|j: int| 0 <= j < es.len() && #[trigger] es[j].0 == k;
                        let j = if j2 < i { j2 } else { j2 + 1 };
                        assert(old_es[j].0 == k);
                    }
                    assert(entries_map(es) =~= old(self).signatures().remove(h@));
                    assert(self.queue() =~= old(self).queue().drop_first());
                    let so = old(self).started_order();
                    let k = so.len() - old(self).queue().len();
                    assert(so.skip(k)[0] == so[k]);
                    assert(so.skip(k + 1) =~= so.skip(k).drop_first());
                    assert(so.take(k + 1) =~= so.take(k).push(so[k]));
                }
                NextMultisigned::Ready(q, s)
            },
        }
    }
}

} // verus!
