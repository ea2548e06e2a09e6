//! The naming of the gossip protocols on the substrate network, and the translation of what
//! the substrate network reports into gossip events and the steps the event stream takes.
use vstd::prelude::*;
use vstd::string::StringExecFns;

use crate::network::gossip::{Event, Protocol};

verus! {

/// The suffix of the name of the protocol that disseminates validator authentications.
pub open spec fn authentication_suffix() -> Seq<char> {
    "/auth/0"@
}

/// The suffix of the name of the protocol that synchronizes the block state.
pub open spec fn block_sync_suffix() -> Seq<char> {
    "/sync/0"@
}

/// Converts protocols to their names and back.
#[derive(Clone)]
pub struct ProtocolNaming {
    authentication_name: String,
    block_sync_name: String,
}

impl ProtocolNaming {
    /// The name of the authentication protocol.
    pub closed spec fn authentication_name(&self) -> Seq<char> {
        self.authentication_name@
    }

    /// The name of the block sync protocol.
    pub closed spec fn block_sync_name(&self) -> Seq<char> {
        self.block_sync_name@
    }

    /// The name of `protocol`.
    pub open spec fn name_of(&self, protocol: Protocol) -> Seq<char> {
        match protocol {
            Protocol::Authentication => self.authentication_name(),
            Protocol::BlockSync => self.block_sync_name(),
        }
    }

    /// The protocol called `name`, if any.
    pub open spec fn protocol_called(&self, name: Seq<char>) -> Option<Protocol> {
        if name == self.authentication_name() {
            Some(Protocol::Authentication)
        } else if name == self.block_sync_name() {
            Some(Protocol::BlockSync)
        } else {
            None
        }
    }

    /// The naming in which each protocol's name is `chain_prefix` followed by its suffix.
    pub fn new(chain_prefix: String) -> (res: ProtocolNaming)
        ensures
            res.authentication_name() == chain_prefix@ + authentication_suffix(),
            res.block_sync_name() == chain_prefix@ + block_sync_suffix(),
    {
        let authentication_name = chain_prefix.clone().concat("/auth/0");
        let block_sync_name = chain_prefix.concat("/sync/0");
        ProtocolNaming { authentication_name, block_sync_name }
    }

    /// The two protocols of a naming made by `new` have different names.
    pub proof fn lemma_names_differ(chain_prefix: Seq<char>)
        ensures
            chain_prefix + authentication_suffix() != chain_prefix + block_sync_suffix(),
    {
        reveal_strlit("/auth/0");
        reveal_strlit("/sync/0");
        let a = chain_prefix + authentication_suffix();
        let b = chain_prefix + block_sync_suffix();
        let i: int = chain_prefix.len() as int + 1;
        assert(a[i] != b[i]);
    }

    /// In a naming made by `new`, converting a protocol to its name and back gives the
    /// protocol.
    pub proof fn lemma_name_roundtrip(&self, chain_prefix: Seq<char>, protocol: Protocol)
        requires
            self.authentication_name() == chain_prefix + authentication_suffix(),
            self.block_sync_name() == chain_prefix + block_sync_suffix(),
        ensures
            self.protocol_called(self.name_of(protocol)) == Some(protocol),
    {
        Self::lemma_names_differ(chain_prefix);
    }

    /// The canonical name of `protocol`.
    pub fn protocol_name(&self, protocol: &Protocol) -> (res: String)
        ensures
            res@ == self.name_of(*protocol),
    {
        match protocol {
            Protocol::Authentication => self.authentication_name.clone(),
            Protocol::BlockSync => self.block_sync_name.clone(),
        }
    }

    /// The fallback names of `protocol`: there are none.
    pub fn fallback_protocol_names(&self, protocol: &Protocol) -> (res: Vec<String>)
        ensures
            res@.len() == 0,
    {
        Vec::new()
    }

    /// The protocol called `name`, if any.
    pub fn to_protocol(&self, name: &String) -> (res: Option<Protocol>)
        ensures
            res == self.protocol_called(name@),
    {
        if *name == self.authentication_name {
            Some(Protocol::Authentication)
        } else if *name == self.block_sync_name {
            Some(Protocol::BlockSync)
        } else {
            None
        }
    }
}

/// What the notification service of one protocol reports.
pub enum NotificationEvent<P> {
    /// A peer asks to open an inbound substream.
    ValidateInboundSubstream,
    NotificationStreamOpened(P),
    NotificationStreamClosed(P),
    NotificationReceived(P, Vec<u8>),
}

/// What the general network event stream reports; protocols are given by name.
pub enum NetworkEvent<P> {
    NotificationStreamOpened(P, String),
    NotificationStreamClosed(P, String),
    NotificationsReceived(P, Vec<(String, Vec<u8>)>),
    Dht,
}

/// What the syncing service reports.
pub enum SyncEvent<P> {
    PeerConnected(P),
    PeerDisconnected(P),
}

/// The next item of any of the sources the event stream listens to.
pub enum SourceEvent<P> {
    SyncNotification(NotificationEvent<P>),
    AuthenticationNotification(NotificationEvent<P>),
    Network(NetworkEvent<P>),
    Sync(SyncEvent<P>),
    /// Every source has ended.
    Exhausted,
}

/// What the event stream does with a source event.
pub enum StreamStep<P> {
    /// Hand this gossip event out.
    Emit(Event<P>),
    /// Accept the inbound substream, then wait for the next source event.
    AcceptSubstream,
    /// Add the peer to the reserved sets of the protocols with these names, then wait.
    AddReserved(P, Vec<String>),
    /// Remove the peer from the reserved sets of the protocols with these names, then wait.
    RemoveReserved(P, Vec<String>),
    /// Wait for the next source event.
    Skip,
    /// The stream has ended.
    End,
}

/// The messages among `messages` whose protocol names a protocol, with that protocol, in
/// order.
pub open spec fn named_messages(naming: ProtocolNaming, messages: Seq<(String, Vec<u8>)>) -> Seq<
    (Protocol, Seq<u8>),
>
    decreases messages.len(),
{
    if messages.len() == 0 {
        Seq::empty()
    } else {
        let rest = named_messages(naming, messages.drop_last());
        match naming.protocol_called(messages.last().0@) {
            Some(p) => rest.push((p, messages.last().1@)),
            None => rest,
        }
    }
}

/// The view of the messages of a gossip event.
pub open spec fn messages_view(messages: Seq<(Protocol, Vec<u8>)>) -> Seq<(Protocol, Seq<u8>)> {
    messages.map_values(|m: (Protocol, Vec<u8>)| (m.0, m.1@))
}

/// A notification event of `protocol`'s own service, translated.
pub open spec fn notification_step<P>(
    event: NotificationEvent<P>,
    protocol: Protocol,
    res: StreamStep<P>,
) -> bool {
    match event {
        NotificationEvent::ValidateInboundSubstream => res is AcceptSubstream,
        NotificationEvent::NotificationStreamOpened(peer) => res == StreamStep::Emit(
            Event::StreamOpened(peer, protocol),
        ),
        NotificationEvent::NotificationStreamClosed(peer) => res == StreamStep::Emit(
            Event::StreamClosed(peer, protocol),
        ),
        NotificationEvent::NotificationReceived(peer, data) => res matches StreamStep::Emit(
            Event::Messages(p, ms),
        ) && p == peer && messages_view(ms@) == seq![(protocol, data@)],
    }
}

/// The names of both protocols, authentication first.
pub open spec fn both_names(naming: ProtocolNaming, names: Seq<String>) -> bool {
    &&& names.len() == 2
    &&& names[0]@ == naming.authentication_name()
    &&& names[1]@ == naming.block_sync_name()
}

/// What the event stream does with `event`: notifications of a protocol's own service become
/// gossip events of that protocol, and its requests for inbound substreams are accepted;
/// events of the general stream become gossip events when their protocol name is known and
/// are skipped otherwise; a peer that connects for syncing is added to the reserved sets of
/// both protocols, and one that disconnects is removed from them.
pub open spec fn stream_step<P>(naming: ProtocolNaming, event: SourceEvent<P>, res: StreamStep<P>) -> bool {
    match event {
        SourceEvent::SyncNotification(e) => notification_step(e, Protocol::BlockSync, res),
        SourceEvent::AuthenticationNotification(e) => notification_step(
            e,
            Protocol::Authentication,
            res,
        ),
        SourceEvent::Network(e) => match e {
            NetworkEvent::NotificationStreamOpened(peer, name) => match naming.protocol_called(
                name@,
            ) {
                Some(protocol) => res == StreamStep::Emit(Event::StreamOpened(peer, protocol)),
                None => res is Skip,
            },
            NetworkEvent::NotificationStreamClosed(peer, name) => match naming.protocol_called(
                name@,
            ) {
                Some(protocol) => res == StreamStep::Emit(Event::StreamClosed(peer, protocol)),
                None => res is Skip,
            },
            NetworkEvent::NotificationsReceived(peer, messages) => res matches StreamStep::Emit(
                Event::Messages(p, ms),
            ) && p == peer && messages_view(ms@) == named_messages(naming, messages@),
            NetworkEvent::Dht => res is Skip,
        },
        SourceEvent::Sync(e) => match e {
            SyncEvent::PeerConnected(peer) => res matches StreamStep::AddReserved(p, names) && p
                == peer && both_names(naming, names@),
            SyncEvent::PeerDisconnected(peer) => res matches StreamStep::RemoveReserved(p, names)
                && p == peer && both_names(naming, names@),
        },
        SourceEvent::Exhausted => res is End,
    }
}

fn notification_to_step<P>(event: NotificationEvent<P>, protocol: Protocol) -> (res: StreamStep<P>)
    ensures
        notification_step(event, protocol, res),
{
    match event {
        NotificationEvent::ValidateInboundSubstream => StreamStep::AcceptSubstream,
        NotificationEvent::NotificationStreamOpened(peer) => StreamStep::Emit(
            Event::StreamOpened(peer, protocol),
        ),
        NotificationEvent::NotificationStreamClosed(peer) => StreamStep::Emit(
            Event::StreamClosed(peer, protocol),
        ),
        NotificationEvent::NotificationReceived(peer, data) => {
            let ghost d = data@;
            let ms = vec![(protocol, data)];
            assert(messages_view(ms@) =~= seq![(protocol, d)]);
            StreamStep::Emit(Event::Messages(peer, ms))
        },
    }
}

impl ProtocolNaming {
    fn name_messages(&self, messages: &Vec<(String, Vec<u8>)>) -> (res: Vec<(Protocol, Vec<u8>)>)
        ensures
            messages_view(res@) == named_messages(*self, messages@),
    {
        let mut res: Vec<(Protocol, Vec<u8>)> = Vec::new();
        let mut i: usize = 0;
        while i < messages.len()
            invariant
                i <= messages.len(),
                messages_view(res@) == named_messages(*self, messages@.subrange(0, i as int)),
            decreases messages.len() - i,
        {
            proof {
                assert(messages@.subrange(0, i + 1).drop_last() =~= messages@.subrange(0, i as int));
            }
            if let Some(p) = self.to_protocol(&messages[i].0) {
                let ghost before = res@;
                let data = clone_bytes(&messages[i].1);
                res.push((p, data));
                proof {
                    assert(messages_view(res@) =~= messages_view(before).push((p, messages@[i as int].1@)));
                }
            }
            i = i + 1;
        }
        proof {
            assert(messages@.subrange(0, messages.len() as int) =~= messages@);
        }
        res
    }

    /// What the event stream does with `event`.
    pub fn next_step<P>(&self, event: SourceEvent<P>) -> (res: StreamStep<P>)
        ensures
            stream_step(*self, event, res),
    {
        match event {
            SourceEvent::SyncNotification(e) => notification_to_step(e, Protocol::BlockSync),
            SourceEvent::AuthenticationNotification(e) => notification_to_step(
                e,
                Protocol::Authentication,
            ),
            SourceEvent::Network(e) => match e {
                NetworkEvent::NotificationStreamOpened(peer, name) => match self.to_protocol(&name) {
                    Some(protocol) => StreamStep::Emit(Event::StreamOpened(peer, protocol)),
                    None => StreamStep::Skip,
                },
                NetworkEvent::NotificationStreamClosed(peer, name) => match self.to_protocol(&name) {
                    Some(protocol) => StreamStep::Emit(Event::StreamClosed(peer, protocol)),
                    None => StreamStep::Skip,
                },
                NetworkEvent::NotificationsReceived(peer, messages) => {
                    let named = self.name_messages(&messages);
                    StreamStep::Emit(Event::Messages(peer, named))
                },
                NetworkEvent::Dht => StreamStep::Skip,
            },
            SourceEvent::Sync(e) => {
                let names = vec![
                    self.protocol_name(&Protocol::Authentication),
                    self.protocol_name(&Protocol::BlockSync),
                ];
                match e {
                    SyncEvent::PeerConnected(peer) => StreamStep::AddReserved(peer, names),
                    SyncEvent::PeerDisconnected(peer) => StreamStep::RemoveReserved(peer, names),
                }
            },
            SourceEvent::Exhausted => StreamStep::End,
        }
    }
}

fn clone_bytes(bytes: &Vec<u8>) -> (res: Vec<u8>)
    ensures
        res@ == bytes@,
{
    let res = bytes.clone();
    assert(res@ =~= bytes@);
    res
}

} // verus!
