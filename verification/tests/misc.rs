use finality_aleph::aggregation::{
    AggregatorAction, AggregatorInput, BlockSignatureAggregator, NetworkResult, NetworkWrapper, NextMultisigned, TestMultisignature,
    TestSignature, MAGIC_NUMBER,
};
use finality_aleph::crypto::{AuthoritySignature, Signature, SignatureV1};
use finality_aleph::justification::handler::{
    HandlerAction, JustificationHandler, JustificationHandlerConfig,
};
use finality_aleph::justification::requester::{
    wanted_block_number, BlockRequester, JustificationRequestStatus, NotificationVerdict,
    RequestPlan, SchedulerAction,
};
use finality_aleph::network::gossip::Protocol;
use finality_aleph::primitives::{BlockHash, BlockId, NodeIndex};
use finality_aleph::decimal::decimal_string;
use finality_aleph::finalization::can_finalize;
use finality_aleph::validators::validator_address;
use finality_aleph::{max_message_size, MillisecsPerBlock, UnitCreationDelay};

fn h(byte: u8) -> BlockHash {
    BlockHash([byte; 32])
}

#[test]
fn validator_addresses_start_after_the_rpc_port() {
    assert_eq!(validator_address(1), "ws://127.0.0.1:9945");
    assert_eq!(validator_address(56), "ws://127.0.0.1:10000");
    assert_eq!(decimal_string(0), "0");
    assert_eq!(decimal_string(4294967295), "4294967295");
}

#[test]
fn message_sizes_per_protocol() {
    assert_eq!(max_message_size(Protocol::Authentication), 1024 * 1024);
    assert_eq!(max_message_size(Protocol::BlockSync), 8 * 1024 * 1024);
}

#[test]
fn timing_parameters_default_to_zero() {
    assert_eq!(MillisecsPerBlock::default(), MillisecsPerBlock(0));
    assert_eq!(UnitCreationDelay::default(), UnitCreationDelay(0));
}

#[test]
fn mock_multisignature_holds_the_magic_signature() {
    assert_eq!(TestMultisignature::generate(), TestMultisignature(vec![TestSignature(MAGIC_NUMBER)]));
    let wrapper = NetworkWrapper::new(5u8);
    assert_eq!(wrapper.0, 5);
    assert_ne!(NetworkResult::Noop, NetworkResult::SignatureInserted);
}

#[test]
fn old_signatures_convert_to_new_ones() {
    let old = SignatureV1 { _id: NodeIndex(3), sgn: AuthoritySignature([7; 64]) };
    assert_eq!(Signature::from(old), Signature(AuthoritySignature([7; 64])));
    assert_eq!(old.into_signature(), Signature(AuthoritySignature([7; 64])));
}

#[test]
fn multisigned_hashes_come_out_in_the_order_of_starting() {
    let mut aggregator: BlockSignatureAggregator<u32> = BlockSignatureAggregator::new();
    assert!(aggregator.start_aggregation(h(1)));
    assert!(aggregator.start_aggregation(h(2)));
    assert!(!aggregator.start_aggregation(h(1)));
    assert!(matches!(aggregator.next_multisigned_hash(), NextMultisigned::Pending));
    aggregator.on_multisigned(h(2), 20);
    // the older hash has no signature yet
    assert!(matches!(aggregator.next_multisigned_hash(), NextMultisigned::Pending));
    aggregator.on_multisigned(h(1), 10);
    assert!(matches!(aggregator.next_multisigned_hash(), NextMultisigned::Ready(hash, 10) if hash == h(1)));
    assert!(matches!(aggregator.next_multisigned_hash(), NextMultisigned::Ready(hash, 20) if hash == h(2)));
    assert!(matches!(aggregator.next_multisigned_hash(), NextMultisigned::Pending));
    aggregator.notify_last_hash();
    assert!(matches!(aggregator.next_multisigned_hash(), NextMultisigned::Finished));
}

#[test]
fn request_status_reports_after_two_tries() {
    let mut status = JustificationRequestStatus::new();
    assert!(!status.should_report());
    status.save_block(BlockId::new(h(1), 1));
    assert!(!status.should_report());
    status.save_block(BlockId::new(h(1), 1));
    assert!(status.should_report());
    assert_eq!(status.reported_block(), Some((BlockId::new(h(1), 1), 2)));
    status.save_block(BlockId::new(h(2), 2));
    assert!(!status.should_report());
    status.save_children(h(5), 3);
    status.save_children(h(5), 3);
    assert_eq!(status.reported_children(), Some((h(5), 3, 2)));
    status.reset();
    assert!(!status.should_report());
}

#[test]
fn wanted_block_is_below_best_and_above_the_finalized_child() {
    assert_eq!(wanted_block_number(10, 20, 3), Some(10));
    assert_eq!(wanted_block_number(30, 20, 3), Some(19));
    assert_eq!(wanted_block_number(4, 20, 3), None);
    assert_eq!(wanted_block_number(10, 0, 0), None);
}

#[test]
fn notifications_are_verified_only_in_range() {
    let requester = BlockRequester::new();
    assert_eq!(
        requester.handle_justification_notification(3, 5, 10, |_| panic!("not asked")),
        NotificationVerdict::OutOfRange
    );
    assert_eq!(
        requester.handle_justification_notification(11, 5, 10, |_| panic!("not asked")),
        NotificationVerdict::OutOfRange
    );
    assert_eq!(
        requester.handle_justification_notification(7, 5, 10, |_| false),
        NotificationVerdict::BadJustification
    );
    assert_eq!(
        requester.handle_justification_notification(7, 5, 10, |n| n == 7),
        NotificationVerdict::Finalize
    );
}

#[test]
fn requests_follow_the_scheduler() {
    let mut requester = BlockRequester::new();
    let finalized = BlockId::new(h(4), 4);
    let children = vec![BlockId::new(h(5), 5), BlockId::new(h(6), 5)];
    match requester.request_justification(SchedulerAction::Request, 12, finalized, 10, children.clone()) {
        RequestPlan::Request(cs, wanted) => {
            assert_eq!(cs, children);
            assert_eq!(wanted, Some(9));
        },
        _ => panic!("the scheduler asked for requests"),
    }
    requester.request_justification(SchedulerAction::Request, 12, finalized, 10, children.clone());
    assert!(requester.should_report());
    requester.on_finalization_result(true);
    assert!(!requester.should_report());
    assert!(matches!(
        requester.request_justification(SchedulerAction::ClearQueue, 12, finalized, 10, vec![]),
        RequestPlan::ClearQueue
    ));
    assert!(matches!(
        requester.request_justification(SchedulerAction::Wait, 12, finalized, 10, vec![]),
        RequestPlan::Wait
    ));
}

#[test]
fn handler_waits_for_a_verifier_and_reports_status_periodically() {
    let config = JustificationHandlerConfig { verifier_timeout_ms: 500, notification_timeout_ms: 1_000 };
    let mut handler = JustificationHandler::new(config, 0);
    assert_eq!(handler.session_query(41), 42);
    assert_eq!(handler.on_session_info(false, 90), HandlerAction::WaitForVerifier(500));
    assert_eq!(handler.on_session_info(true, 90), HandlerAction::AwaitNotification(1_000, 90));
    assert!(!handler.status_report_due(19_999));
    assert!(handler.status_report_due(20_000));
    assert!(!handler.status_report_due(39_999));
    assert!(handler.status_report_due(40_000));
    // a clock that went back reports nothing
    assert!(!handler.status_report_due(10));
}

#[test]
fn only_blocks_above_the_finalized_one_are_finalized() {
    assert!(can_finalize(4, 5));
    assert!(!can_finalize(5, 5));
    assert!(!can_finalize(6, 5));
}

#[test]
fn aggregator_passes_messages_between_network_and_multicast() {
    let mut aggregator: BlockSignatureAggregator<u32> = BlockSignatureAggregator::new();
    aggregator.start_aggregation(h(3));
    let (result, action) = aggregator.process_network_message(AggregatorInput::<u32, u8>::FromNetwork(Some(8)));
    assert_eq!(result, NetworkResult::Noop);
    assert!(matches!(action, AggregatorAction::ForwardToMulticast(8)));
    let (result, action) = aggregator.process_network_message(AggregatorInput::<u32, u8>::FromMulticast(Some(9)));
    assert_eq!(result, NetworkResult::Noop);
    assert!(matches!(action, AggregatorAction::SendToEveryone(9)));
    let (result, _) = aggregator.process_network_message(AggregatorInput::<u32, u8>::Multisigned(h(3), 33));
    assert_eq!(result, NetworkResult::SignatureInserted);
    assert!(matches!(aggregator.next_multisigned_hash(), NextMultisigned::Ready(hash, 33) if hash == h(3)));
    let (result, action) = aggregator.process_network_message(AggregatorInput::<u32, u8>::FromNetwork(None));
    assert_eq!(result, NetworkResult::NetworkChannelClosed);
    assert!(matches!(action, AggregatorAction::Nothing));
}

#[test]
fn children_of_one_parent_requested_twice_in_a_row_are_reported() {
    let mut status = JustificationRequestStatus::new();
    status.save_children(h(5), 3);
    assert!(!status.should_report());
    status.save_children(h(6), 3);
    assert!(!status.should_report());
    status.save_children(h(6), 2);
    assert!(status.should_report());
    assert_eq!(status.reported_children(), Some((h(6), 2, 2)));
}
