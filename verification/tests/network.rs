use std::collections::HashSet;

use finality_aleph::network::address_cache::{
    validator_address_cache_updater, ValidatorAddressCache, ValidatorAddressCacheUpdater,
    ValidatorAddressCacheUpdaterImpl,
};
use finality_aleph::base_protocol::{ConnectionError, Handler, Handshake, PeerSetConfig};
use finality_aleph::crypto::{AuthorityId, AuthoritySignature, Signature};
use finality_aleph::network::gossip::{ConnectedPeers, Event, EventOutcome, Protocol, SendError};
use finality_aleph::network::manager::compatibility::{Error, VersionedAuthentication};
use finality_aleph::network::manager::discovery::{Discovery, DiscoveryMessage};
use finality_aleph::network::manager::{AuthData, Authentication};
use finality_aleph::network::notifications::{NotificationOutcome, Service};
use finality_aleph::network::substrate::{
    NetworkEvent, NotificationEvent, ProtocolNaming, SourceEvent, StreamStep, SyncEvent,
};
use finality_aleph::network::tcp::{AddressingInformationError, SignedTcpAddressingInformation};
use finality_aleph::primitives::{BlockHash, NodeIndex, SessionId};
use finality_aleph::scale::Data;

fn set(peers: &[u64]) -> HashSet<u64> {
    peers.iter().copied().collect()
}

#[test]
fn opened_and_closed_streams_track_connected_peers() {
    let mut peers = ConnectedPeers::new();
    let outcome = peers.handle_network_event::<u32, u32>(Event::StreamOpened(3, Protocol::BlockSync));
    assert!(matches!(outcome, EventOutcome::StartSender(3, Protocol::BlockSync)));
    assert!(peers.is_connected(3, Protocol::BlockSync));
    assert!(!peers.is_connected(3, Protocol::Authentication));
    let outcome = peers.handle_network_event::<u32, u32>(Event::StreamClosed(3, Protocol::BlockSync));
    assert!(matches!(outcome, EventOutcome::StopSender(3, Protocol::BlockSync)));
    assert_eq!(peers.count(Protocol::BlockSync), 0);
}

#[test]
fn test_notification_received_decodes_per_protocol() {
    let mut peers = ConnectedPeers::new();
    let messages = vec![
        (Protocol::Authentication, 7u32.encode()),
        (Protocol::BlockSync, vec![1, 2]),
        (Protocol::BlockSync, BlockHash([5; 32]).encode()),
        (Protocol::Authentication, 9u32.encode()),
    ];
    match peers.handle_network_event::<u32, BlockHash>(Event::Messages(4, messages)) {
        EventOutcome::Deliver(auth, sync) => {
            assert_eq!(auth, vec![(7, 4), (9, 4)]);
            assert_eq!(sync, vec![(BlockHash([5; 32]), 4)]);
        },
        _ => panic!("messages should be delivered"),
    }
}

#[test]
fn broadcast_goes_to_every_connected_peer_once() {
    let mut peers = ConnectedPeers::new();
    peers.add(1, Protocol::Authentication);
    peers.add(2, Protocol::Authentication);
    peers.add(1, Protocol::Authentication);
    peers.add(5, Protocol::BlockSync);
    let mut targets = peers.broadcast_targets(Protocol::Authentication);
    targets.sort();
    assert_eq!(targets, vec![1, 2]);
}

#[test]
fn random_peer_prefers_the_requested_ones() {
    let mut peers = ConnectedPeers::new();
    assert_eq!(peers.random_peer(&set(&[1]), Protocol::BlockSync), None);
    peers.add(1, Protocol::BlockSync);
    peers.add(2, Protocol::BlockSync);
    peers.add(3, Protocol::BlockSync);
    for _ in 0..20 {
        assert_eq!(peers.random_peer(&set(&[2, 9]), Protocol::BlockSync), Some(2));
        let any = peers.random_peer(&set(&[9]), Protocol::BlockSync).unwrap();
        assert!([1, 2, 3].contains(&any));
    }
}

#[test]
fn test_no_send_to_disconnected_peer() {
    let mut peers = ConnectedPeers::new();
    peers.add(1, Protocol::Authentication);
    peers.remove(1, Protocol::Authentication);
    assert_eq!(peers.random_peer(&set(&[1]), Protocol::Authentication), None);
    assert!(peers.broadcast_targets(Protocol::Authentication).is_empty());
}

#[test]
fn notification_service_tracks_peers_and_delivers() {
    let mut service = Service::new(Protocol::BlockSync);
    assert!(matches!(
        service.handle_network_event(NotificationEvent::ValidateInboundSubstream),
        NotificationOutcome::AcceptSubstream
    ));
    service.handle_network_event(NotificationEvent::NotificationStreamOpened(8));
    assert_eq!(service.connected_count(), 1);
    assert_eq!(service.random_peer(&set(&[3])), Some(8));
    match service.handle_network_event(NotificationEvent::NotificationReceived(8, vec![4, 2])) {
        NotificationOutcome::Deliver(data, peer) => {
            assert_eq!(data, vec![4, 2]);
            assert_eq!(peer, 8);
        },
        other => panic!("unexpected outcome {:?}", other),
    }
    service.handle_network_event(NotificationEvent::NotificationStreamClosed(8));
    assert_eq!(service.random_peer(&set(&[8])), None);
}

fn naming() -> ProtocolNaming {
    ProtocolNaming::new("/chain".to_string())
}

#[test]
fn protocol_names_are_prefixed_and_convert_back() {
    let naming = naming();
    assert_eq!(naming.protocol_name(&Protocol::Authentication), "/chain/auth/0");
    assert_eq!(naming.protocol_name(&Protocol::BlockSync), "/chain/sync/0");
    assert!(naming.fallback_protocol_names(&Protocol::BlockSync).is_empty());
    assert_eq!(naming.to_protocol(&"/chain/auth/0".to_string()), Some(Protocol::Authentication));
    assert_eq!(naming.to_protocol(&"/chain/sync/0".to_string()), Some(Protocol::BlockSync));
    assert_eq!(naming.to_protocol(&"/incorrect/name".to_string()), None);
}

#[test]
fn test_network_event_sync_connected_adds_reserved_peer() {
    match naming().next_step(SourceEvent::Sync(SyncEvent::PeerConnected(17u64))) {
        StreamStep::AddReserved(peer, names) => {
            assert_eq!(peer, 17);
            assert_eq!(names, vec!["/chain/auth/0".to_string(), "/chain/sync/0".to_string()]);
        },
        _ => panic!("the peer should be added"),
    }
    assert!(matches!(
        naming().next_step(SourceEvent::Sync(SyncEvent::PeerDisconnected(17u64))),
        StreamStep::RemoveReserved(17, _)
    ));
}

#[test]
fn test_network_event_notification_stream_opened_and_closed() {
    let naming = naming();
    assert!(matches!(
        naming.next_step(SourceEvent::Network(NetworkEvent::NotificationStreamOpened(
            5u64,
            "/chain/auth/0".to_string()
        ))),
        StreamStep::Emit(Event::StreamOpened(5, Protocol::Authentication))
    ));
    assert!(matches!(
        naming.next_step(SourceEvent::Network(NetworkEvent::NotificationStreamOpened(
            5u64,
            "/incorrect/name".to_string()
        ))),
        StreamStep::Skip
    ));
    assert!(matches!(
        naming.next_step(SourceEvent::Network(NetworkEvent::NotificationStreamClosed(
            5u64,
            "/chain/sync/0".to_string()
        ))),
        StreamStep::Emit(Event::StreamClosed(5, Protocol::BlockSync))
    ));
    assert!(matches!(
        naming.next_step(SourceEvent::Network(NetworkEvent::NotificationStreamClosed(
            5u64,
            "/incorrect/name".to_string()
        ))),
        StreamStep::Skip
    ));
    assert!(matches!(
        naming.next_step(SourceEvent::<u64>::Network(NetworkEvent::Dht)),
        StreamStep::Skip
    ));
    assert!(matches!(naming.next_step(SourceEvent::<u64>::Exhausted), StreamStep::End));
}

#[test]
fn test_network_event_notifications_received_keeps_known_protocols() {
    let messages = vec![
        ("/chain/sync/0".to_string(), vec![1]),
        ("/other".to_string(), vec![2]),
        ("/chain/auth/0".to_string(), vec![3]),
    ];
    match naming().next_step(SourceEvent::Network(NetworkEvent::NotificationsReceived(9u64, messages))) {
        StreamStep::Emit(Event::Messages(peer, ms)) => {
            assert_eq!(peer, 9);
            assert_eq!(ms, vec![(Protocol::BlockSync, vec![1]), (Protocol::Authentication, vec![3])]);
        },
        _ => panic!("messages should be emitted"),
    }
}

#[test]
fn notifications_of_a_protocol_service_become_its_events() {
    let naming = naming();
    assert!(matches!(
        naming.next_step(SourceEvent::<u64>::SyncNotification(NotificationEvent::ValidateInboundSubstream)),
        StreamStep::AcceptSubstream
    ));
    match naming.next_step(SourceEvent::AuthenticationNotification(
        NotificationEvent::NotificationReceived(2u64, vec![7, 7]),
    )) {
        StreamStep::Emit(Event::Messages(2, ms)) => {
            assert_eq!(ms, vec![(Protocol::Authentication, vec![7, 7])])
        },
        _ => panic!("the notification should be emitted"),
    }
}

fn config() -> PeerSetConfig {
    PeerSetConfig { num_full: 2, out_peers: 1, in_peers: 2 }
}

fn full(genesis: u8) -> Option<Handshake> {
    Some(Handshake { is_full: true, genesis_hash: BlockHash([genesis; 32]) })
}

fn light() -> Option<Handshake> {
    Some(Handshake { is_full: false, genesis_hash: BlockHash([0; 32]) })
}

#[test]
fn connections_are_refused_for_each_reason() {
    let mut handler = Handler::new(BlockHash([0; 32]), &vec![100], config());
    assert!(matches!(
        handler.on_new_connection(1, None, false),
        Err(ConnectionError::BadlyEncodedHandshake)
    ));
    assert!(matches!(
        handler.on_new_connection(1, full(9), false),
        Err(ConnectionError::BadHandshakeGenesis)
    ));
    assert!(matches!(
        handler.on_new_connection(100, light(), false),
        Err(ConnectionError::NonFullReservedNode)
    ));
    assert!(handler.on_new_connection(100, full(0), true).is_ok());
    assert!(handler.on_new_connection(1, full(0), true).is_ok());
    assert!(matches!(
        handler.on_new_connection(1, full(0), false),
        Err(ConnectionError::PeerAlreadyConnected)
    ));
    // one inbound slot: two full slots less one outgoing
    assert!(matches!(
        handler.on_new_connection(2, full(0), true),
        Err(ConnectionError::TooManyFullInboundPeers)
    ));
    assert!(handler.on_new_connection(2, full(0), false).is_ok());
    assert!(matches!(
        handler.on_new_connection(3, full(0), false),
        Err(ConnectionError::TooManyFullPeers)
    ));
    // one light slot: three in and out slots less two full ones
    assert!(handler.on_new_connection(4, light(), false).is_ok());
    assert!(matches!(
        handler.on_new_connection(5, light(), false),
        Err(ConnectionError::TooManyLightNodes)
    ));
    let mut info = handler.peers_info();
    info.sort();
    assert_eq!(info, vec![(1, true), (2, true), (4, false), (100, true)]);
}

#[test]
fn light_peers_are_refused_while_reserved_nodes_are_away() {
    let mut handler = Handler::new(BlockHash([0; 32]), &vec![100, 101], config());
    assert!(matches!(
        handler.on_new_connection(4, light(), false),
        Err(ConnectionError::TooManyLightNodes)
    ));
}

fn auth(node: usize) -> Authentication<u32> {
    Authentication(
        AuthData { addresses: vec![node as u32 * 10], node_id: NodeIndex(node), session_id: SessionId(3) },
        Signature(AuthoritySignature([node as u8; 64])),
    )
}

#[test]
fn broadcasts_when_clueless_and_not_otherwise() {
    let mut discovery: Discovery<u32> = Discovery::new(100);
    assert_eq!(
        discovery.discover_authorities(Some(auth(0))),
        Some(DiscoveryMessage::AuthenticationBroadcast(auth(0)))
    );
    assert_eq!(discovery.discover_authorities(None), None);
}

#[test]
fn rebroadcasts_and_accepts_addresses_after_cooldown() {
    let mut discovery: Discovery<u32> = Discovery::new(100);
    let message = DiscoveryMessage::AuthenticationBroadcast(auth(1));
    assert_eq!(message.session_id(), SessionId(3));
    let (addresses, command) = discovery.handle_message(message.clone(), true, 1_000);
    assert_eq!(addresses, vec![10]);
    assert_eq!(command, Some(DiscoveryMessage::AuthenticationBroadcast(auth(1))));
    // within the cooldown: addresses, but no rebroadcast
    let (addresses, command) = discovery.handle_message(message.clone(), true, 1_050);
    assert_eq!(addresses, vec![10]);
    assert_eq!(command, None);
    let (_, command) = discovery.handle_message(message, true, 1_105);
    assert_eq!(command, Some(DiscoveryMessage::AuthenticationBroadcast(auth(1))));
}

#[test]
fn does_not_accept_or_rebroadcast_wrong_authentications() {
    let mut discovery: Discovery<u32> = Discovery::new(100);
    let (addresses, command) =
        discovery.handle_message(DiscoveryMessage::AuthenticationBroadcast(auth(1)), false, 5);
    assert!(addresses.is_empty());
    assert!(command.is_none());
    let (addresses, command) =
        discovery.handle_message(DiscoveryMessage::Authentication(auth(2)), true, 5);
    assert_eq!(addresses, vec![20]);
    assert!(command.is_none());
}

#[test]
fn authentication_of_version_one_roundtrips() {
    let message = VersionedAuthentication::from_message(77u32);
    let encoded = message.encode();
    assert_eq!(encoded, vec![1, 0, 4, 0, 0, 0, 77, 0, 0, 0]);
    match VersionedAuthentication::<u32>::decode(&encoded) {
        Some((decoded, n)) => {
            assert_eq!(n, encoded.len());
            assert_eq!(decoded.try_into(), Ok(77));
        },
        None => panic!("the message should decode"),
    }
}

#[test]
fn authentication_of_unknown_version_is_an_error() {
    let message = VersionedAuthentication::<u32>::Other(2, vec![9, 9]);
    let encoded = message.encode();
    assert_eq!(encoded, vec![2, 0, 2, 0, 0, 0, 9, 9]);
    match VersionedAuthentication::<u32>::decode(&encoded) {
        Some((decoded, 8)) => assert_eq!(decoded.try_into(), Err(Error::UnknownVersion(2))),
        _ => panic!("the message should decode"),
    }
    assert!(VersionedAuthentication::<u32>::decode(&[2, 0, 3, 0, 0, 0, 9, 9]).is_none());
}

#[test]
fn addressing_information_needs_an_address() {
    let peer = AuthorityId([1; 32]);
    let signature = Signature(AuthoritySignature([2; 64]));
    assert!(matches!(
        SignedTcpAddressingInformation::new(vec![], peer, signature),
        Err(AddressingInformationError::NoAddress)
    ));
    let info = SignedTcpAddressingInformation::new(
        vec!["127.0.0.1:1234".to_string(), "[::1]:1234".to_string()],
        peer,
        signature,
    )
    .unwrap();
    assert_eq!(info.peer_id().0, peer);
    assert_eq!(
        info.addressing_information.all_addresses(),
        vec!["127.0.0.1:1234".to_string(), "[::1]:1234".to_string()]
    );
}

#[test]
fn errors_say_what_went_wrong() {
    assert_eq!(finality_aleph::network::gossip::GossipServiceError::NetworkStreamTerminated.message(), "Network event stream ended.");
    assert_eq!(
        finality_aleph::network::gossip::GossipServiceError::UnableToForwardMessageToUser.message(),
        "Cannot forward messages to user."
    );
    assert_eq!(
        finality_aleph::network::notifications::GossipServiceError::NetworkStreamTerminated.message(),
        "Network event stream ended."
    );
    assert_eq!(
        Error::UnknownVersion(12).message(),
        "authentication data encoded with unknown version 12"
    );
}

fn addressing(session: u32, address: &str) -> finality_aleph::network::address_cache::ValidatorAddressingInfo {
    finality_aleph::network::address_cache::ValidatorAddressingInfo {
        session: SessionId(session),
        network_level_address: address.to_string(),
        validator_network_peer_id: "peer".to_string(),
    }
}

struct FixedAccounts;

impl finality_aleph::network::address_cache::ValidatorIndexToAccountIdConverter for FixedAccounts {
    fn account(&self, _session: SessionId, validator_index: NodeIndex) -> Option<finality_aleph::primitives::AccountId> {
        if validator_index.0 < 2 {
            Some(finality_aleph::primitives::AccountId([validator_index.0 as u8; 32]))
        } else {
            None
        }
    }
}

#[test]
fn address_cache_keeps_the_latest_information() {
    let mut cache = ValidatorAddressCache::new();
    let stash = finality_aleph::primitives::AccountId([7; 32]);
    cache.insert(stash, addressing(1, "10.0.0.1:30343"));
    cache.insert(stash, addressing(2, "10.0.0.2:30343"));
    assert_eq!(cache.len(), 1);
    let info = cache.get(&stash).unwrap();
    assert_eq!(info.session, SessionId(2));
    assert_eq!(info.network_level_address, "10.0.0.2:30343");
    assert!(cache.get(&finality_aleph::primitives::AccountId([8; 32])).is_none());
}

#[test]
fn updater_records_validators_with_known_accounts() {
    let mut updater = validator_address_cache_updater(Some(ValidatorAddressCache::new()), FixedAccounts);
    updater.update(NodeIndex(1), addressing(4, "a"));
    updater.update(NodeIndex(5), addressing(4, "b"));
    match &updater {
        ValidatorAddressCacheUpdaterImpl::BackendBased { validator_address_cache, .. } => {
            assert_eq!(validator_address_cache.len(), 1);
            assert_eq!(
                validator_address_cache
                    .get(&finality_aleph::primitives::AccountId([1; 32]))
                    .unwrap()
                    .network_level_address,
                "a"
            );
        },
        ValidatorAddressCacheUpdaterImpl::Noop => panic!("there is a cache"),
    }
    let mut noop = validator_address_cache_updater(None, FixedAccounts);
    noop.update(NodeIndex(1), addressing(4, "a"));
    assert!(matches!(noop, ValidatorAddressCacheUpdaterImpl::Noop));
}

const NUM_NODES: usize = 7;
const MS_COOLDOWN: u64 = 50;

/// The authentication data of `node` signed with the key of `signer`: a handler accepts it
/// only when the two agree.
fn signed_by(node: usize, signer: usize) -> Authentication<u32> {
    Authentication(auth(node).0, auth(signer).1)
}

#[test]
fn broadcasts_when_clueless() {
    for num_nodes in 2..NUM_NODES {
        let mut discovery: Discovery<u32> = Discovery::new(MS_COOLDOWN);
        let own = auth(num_nodes - 2);
        let message = discovery.discover_authorities(Some(own.clone()));
        assert_eq!(
            message.expect("there is a discovery message"),
            DiscoveryMessage::AuthenticationBroadcast(own),
        );
    }
}

#[test]
fn non_validator_discover_authorities_returns_empty_vector() {
    let mut discovery: Discovery<u32> = Discovery::new(MS_COOLDOWN);
    let message = discovery.discover_authorities(None);
    assert!(message.is_none());
}

#[test]
fn rebroadcasts_and_accepts_addresses() {
    let mut discovery: Discovery<u32> = Discovery::new(MS_COOLDOWN);
    let authentication = auth(1);
    let (addresses, command) = discovery.handle_message(
        DiscoveryMessage::AuthenticationBroadcast(authentication.clone()),
        true,
        1_000,
    );
    assert_eq!(addresses, authentication.0.addresses);
    assert!(matches!(command, Some(
            DiscoveryMessage::AuthenticationBroadcast(rebroadcast_authentication),
        ) if rebroadcast_authentication == authentication));
}

#[test]
fn non_validators_rebroadcasts() {
    // a node outside the committee accepts the same authentications
    let mut discovery: Discovery<u32> = Discovery::new(MS_COOLDOWN);
    let authentication = auth(1);
    let (addresses, command) = discovery.handle_message(
        DiscoveryMessage::AuthenticationBroadcast(authentication.clone()),
        true,
        1_000,
    );
    assert_eq!(addresses, authentication.0.addresses);
    assert!(matches!(command, Some(
            DiscoveryMessage::AuthenticationBroadcast(rebroadcast_authentication),
        ) if rebroadcast_authentication == authentication));
}

#[test]
fn does_not_rebroadcast_wrong_authentications() {
    let mut discovery: Discovery<u32> = Discovery::new(MS_COOLDOWN);
    let authentication = signed_by(1, 2);
    let (addresses, command) = discovery.handle_message(
        DiscoveryMessage::AuthenticationBroadcast(authentication),
        false,
        1_000,
    );
    assert!(addresses.is_empty());
    assert!(command.is_none());
}

#[test]
fn rebroadcasts_after_cooldown() {
    let mut discovery: Discovery<u32> = Discovery::new(MS_COOLDOWN);
    let authentication = auth(1);
    discovery.handle_message(
        DiscoveryMessage::AuthenticationBroadcast(authentication.clone()),
        true,
        1_000,
    );
    let (addresses, command) = discovery.handle_message(
        DiscoveryMessage::AuthenticationBroadcast(authentication.clone()),
        true,
        1_000 + MS_COOLDOWN + 5,
    );
    assert_eq!(addresses, authentication.0.addresses);
    assert!(matches!(command, Some(
            DiscoveryMessage::AuthenticationBroadcast(rebroadcast_authentication),
        ) if rebroadcast_authentication == authentication));
}

#[test]
fn accepts_correct_authentications() {
    let mut discovery: Discovery<u32> = Discovery::new(MS_COOLDOWN);
    let expected_address = auth(1).0.addresses[0].encode();
    let authentication = auth(1);
    let (addresses, command) =
        discovery.handle_message(DiscoveryMessage::Authentication(authentication), true, 1_000);
    assert_eq!(addresses.len(), 1);
    let address = addresses[0].encode();
    assert_eq!(address, expected_address);
    assert!(command.is_none());
}

#[test]
fn does_not_accept_incorrect_authentications() {
    let mut discovery: Discovery<u32> = Discovery::new(MS_COOLDOWN);
    let incorrect_authentication = signed_by(1, 2);
    let (addresses, command) = discovery.handle_message(
        DiscoveryMessage::Authentication(incorrect_authentication),
        false,
        1_000,
    );
    assert!(addresses.is_empty());
    assert!(command.is_none());
}

#[test]
fn test_notification_received() {
    let mut peers = ConnectedPeers::new();
    let message = 1u32;
    let peer_id = 17u64;
    match peers.handle_network_event::<u32, u32>(Event::Messages(
        peer_id,
        vec![(Protocol::Authentication, message.encode())],
    )) {
        EventOutcome::Deliver(received, others) => {
            let (received_message, received_peer_id) = received[0];
            assert_eq!(received_message, message);
            assert_eq!(received_peer_id, peer_id);
            assert!(others.is_empty());
        },
        _ => panic!("Should receive message"),
    }
}

#[test]
fn test_no_send_to_disconnected() {
    let peers = ConnectedPeers::new();

    let peer_id = 17u64;

    let message = 1u32;

    assert!(matches!(
        peers.send_to_authentication_peer(message, peer_id),
        Err(SendError::MissingSender)
    ));
}

#[test]
fn data_goes_to_connected_peers_only_under_their_protocol() {
    let mut peers = ConnectedPeers::new();
    peers.add(3, Protocol::BlockSync);
    assert_eq!(peers.send_to_block_sync_peer(7u32, 3), Ok((3, 7)));
    assert_eq!(peers.send_to_authentication_peer(7u32, 3), Err(SendError::MissingSender));
    peers.remove(3, Protocol::BlockSync);
    assert_eq!(peers.send_to_block_sync_peer(7u32, 3), Err(SendError::MissingSender));
}

#[test]
fn authentication_send_after_the_stream_closed_finds_no_sender() {
    let mut peers = ConnectedPeers::new();
    peers.handle_network_event::<u32, u32>(Event::StreamOpened(5, Protocol::Authentication));
    assert_eq!(peers.send_to_authentication_peer(1u32, 5), Ok((5, 1)));
    peers.handle_network_event::<u32, u32>(Event::StreamClosed(5, Protocol::Authentication));
    // block sync streams have no say over authentication sends
    peers.handle_network_event::<u32, u32>(Event::StreamOpened(5, Protocol::BlockSync));
    assert_eq!(peers.send_to_authentication_peer(1u32, 5), Err(SendError::MissingSender));
    assert_eq!(peers.send_to_block_sync_peer(1u32, 5), Ok((5, 1)));
}
