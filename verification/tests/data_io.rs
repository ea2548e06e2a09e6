use finality_aleph::data_io::chain_info::InMemoryChainInfo;
use finality_aleph::data_io::compatibility::VersionedAlephData;
use finality_aleph::data_io::data_store::DataStore;
use finality_aleph::data_io::data_interpreter::{
    last_block_prev_session_number, OrderedDataInterpreter,
};
use finality_aleph::data_io::data_provider::{
    get_parent, get_proposal, reduce_header_to_num, ChainTracker, ChainTrackerConfig,
    DEFAULT_REFRESH_INTERVAL_MS,
};
use finality_aleph::data_io::proposal::{
    AlephProposal, PendingProposalStatus, ProposalStatus, UnvalidatedAlephProposal,
    ValidationError,
};
use finality_aleph::data_io::status_provider::get_proposal_status;
use finality_aleph::data_io::AlephData;
use finality_aleph::primitives::{BlockHash, BlockId, SessionBoundaries, SessionId, SessionPeriod};
use finality_aleph::scale::Data;

fn h(n: u32, fork: u8) -> BlockHash {
    let mut bytes = [0u8; 32];
    bytes[..4].copy_from_slice(&n.to_le_bytes());
    bytes[31] = fork;
    BlockHash(bytes)
}

fn id(n: u32, fork: u8) -> BlockId {
    BlockId::new(h(n, fork), n)
}

/// A chain of `len` blocks above the genesis on fork 0, the first `finalized` of them
/// finalized.
fn chain(len: u32, finalized: u32) -> InMemoryChainInfo {
    let mut c = InMemoryChainInfo::new(h(0, 0));
    for n in 1..=len {
        c.import(id(n, 0), h(n - 1, 0));
    }
    for n in 1..=finalized {
        assert!(c.finalize_next(id(n, 0)));
    }
    c
}

#[test]
fn correctly_decodes_v1_empty() {
    let data_v1 = AlephData::Empty;
    let encoded = data_v1.encode();
    let decoded = AlephData::decode(&encoded);
    assert!(matches!(decoded, Some((AlephData::Empty, n)) if n == encoded.len()));
}

#[test]
fn correctly_decodes_v1_proposal() {
    let branch = vec![BlockHash([0u8; 32]); 1];
    let number = 0;
    let data_v1 = AlephData::HeadProposal(UnvalidatedAlephProposal::new(branch.clone(), number));
    let encoded = data_v1.encode();
    match AlephData::decode(&encoded) {
        Some((AlephData::HeadProposal(p), n)) => {
            assert_eq!(p.branch, branch);
            assert_eq!(p.number, number);
            assert_eq!(n, encoded.len());
        },
        _ => panic!("the proposal should decode"),
    }
}

#[test]
fn versioned_data_of_version_one_roundtrips() {
    let data = VersionedAlephData::V1(AlephData::HeadProposal(UnvalidatedAlephProposal::new(
        vec![h(3, 0), h(4, 0)],
        4,
    )));
    let encoded = data.encode();
    assert_eq!(&encoded[..2], &[1, 0]);
    assert_eq!(data.size_hint(), encoded.len());
    match VersionedAlephData::decode(&encoded) {
        Some((VersionedAlephData::V1(AlephData::HeadProposal(p)), n)) => {
            assert_eq!(p.branch, vec![h(3, 0), h(4, 0)]);
            assert_eq!(p.number, 4);
            assert_eq!(n, encoded.len());
        },
        _ => panic!("version one should decode"),
    }
}

#[test]
fn versioned_data_of_other_versions_is_kept_raw() {
    let data = VersionedAlephData::Other(7, vec![1, 2, 3]);
    let encoded = data.encode();
    assert_eq!(encoded, vec![7, 0, 3, 0, 1, 2, 3]);
    match VersionedAlephData::decode(&encoded) {
        Some((VersionedAlephData::Other(7, payload), 7)) => assert_eq!(payload, vec![1, 2, 3]),
        _ => panic!("other versions should be kept"),
    }
    // too short a payload
    assert!(VersionedAlephData::decode(&[7, 0, 4, 0, 1, 2, 3]).is_none());
}

#[test]
fn proposals_outside_the_session_are_invalid() {
    let sb = SessionBoundaries::new(SessionId(1), SessionPeriod(10));
    assert_eq!(sb.first_block(), 10);
    assert_eq!(sb.last_block(), 19);
    let empty = UnvalidatedAlephProposal::new(vec![], 12);
    assert!(matches!(empty.validate_bounds(&sb), Err(ValidationError::BranchEmpty)));
    let long = UnvalidatedAlephProposal::new(vec![h(1, 0); 8], 18);
    assert!(matches!(
        long.validate_bounds(&sb),
        Err(ValidationError::BranchTooLong { branch_size: 8 })
    ));
    let low = UnvalidatedAlephProposal::new(vec![h(1, 0); 3], 1);
    assert!(matches!(
        low.validate_bounds(&sb),
        Err(ValidationError::BlockNumberOutOfBounds { branch_size: 3, block_number: 1 })
    ));
    let outside = UnvalidatedAlephProposal::new(vec![h(9, 0), h(10, 0)], 10);
    assert!(matches!(
        outside.validate_bounds(&sb),
        Err(ValidationError::BlockOutsideSessionBoundaries {
            session_start: 10,
            session_end: 19,
            top_block: 10,
            bottom_block: 9
        })
    ));
    let fine = UnvalidatedAlephProposal::new(vec![h(11, 0), h(12, 0)], 12);
    let p = fine.validate_bounds(&sb).unwrap();
    assert_eq!(p.number_bottom_block(), 11);
    assert_eq!(p.number_top_block(), 12);
}

#[test]
fn imported_proposal_above_finalized_is_finalized() {
    let c = chain(5, 2);
    let sb = SessionBoundaries::new(SessionId(0), SessionPeriod(100));
    let p = UnvalidatedAlephProposal::new(vec![h(3, 0), h(4, 0), h(5, 0)], 5)
        .validate_bounds(&sb)
        .unwrap();
    match get_proposal_status(&c, true, &p, None) {
        ProposalStatus::Finalize(blocks) => assert_eq!(blocks, vec![id(3, 0), id(4, 0), id(5, 0)]),
        other => panic!("unexpected status {:?}", other),
    }
}

#[test]
fn proposal_below_finalized_is_ignored() {
    let c = chain(5, 4);
    let sb = SessionBoundaries::new(SessionId(0), SessionPeriod(100));
    let p = UnvalidatedAlephProposal::new(vec![h(3, 0), h(4, 0)], 4).validate_bounds(&sb).unwrap();
    assert_eq!(get_proposal_status(&c, true, &p, None), ProposalStatus::Ignore);
}

#[test]
fn not_imported_top_block_is_pending() {
    let c = chain(3, 1);
    let sb = SessionBoundaries::new(SessionId(0), SessionPeriod(100));
    let p = UnvalidatedAlephProposal::new(vec![h(2, 0), h(3, 0), h(4, 0)], 4)
        .validate_bounds(&sb)
        .unwrap();
    assert_eq!(
        get_proposal_status(&c, true, &p, None),
        ProposalStatus::Pending(PendingProposalStatus::PendingTopBlock)
    );
    assert_eq!(
        get_proposal_status(&c, false, &p, None),
        ProposalStatus::Pending(PendingProposalStatus::TopBlockImportedButIncorrectBranch)
    );
}

#[test]
fn hopeless_fork_is_ignored() {
    let mut c = chain(3, 3);
    c.import(id(3, 1), h(2, 0));
    c.import(id(4, 1), h(3, 1));
    let sb = SessionBoundaries::new(SessionId(0), SessionPeriod(100));
    let p = UnvalidatedAlephProposal::new(vec![h(3, 1), h(4, 1)], 4).validate_bounds(&sb).unwrap();
    assert_eq!(get_proposal_status(&c, true, &p, None), ProposalStatus::Ignore);
}

#[test]
fn parents_are_found_down_the_chain() {
    let c = chain(6, 0);
    assert_eq!(get_parent(&c, &id(0, 0)), None);
    assert_eq!(get_parent(&c, &id(4, 0)), Some(id(3, 0)));
    assert_eq!(get_parent(&c, &id(9, 0)), None);
    assert_eq!(reduce_header_to_num(&c, id(6, 0), 2), id(2, 0));
    assert_eq!(reduce_header_to_num(&c, id(6, 0), 6), id(6, 0));
}

#[test]
fn proposal_is_the_branch_above_finalized_cut_to_seven_blocks() {
    let c = chain(20, 2);
    match get_proposal(&c, id(5, 0), id(2, 0)) {
        Ok(AlephData::HeadProposal(p)) => {
            assert_eq!(p.branch, vec![h(3, 0), h(4, 0), h(5, 0)]);
            assert_eq!(p.number, 5);
        },
        _ => panic!("expected a proposal"),
    }
    match get_proposal(&c, id(20, 0), id(2, 0)) {
        Ok(AlephData::HeadProposal(p)) => {
            assert_eq!(p.branch, (3..=9).map(|n| h(n, 0)).collect::<Vec<_>>());
            assert_eq!(p.number, 9);
        },
        _ => panic!("expected a proposal"),
    }
}

#[test]
fn proposal_on_a_conflicting_branch_fails() {
    let mut c = chain(3, 1);
    c.import(id(2, 1), h(1, 0));
    c.import(id(3, 1), h(2, 1));
    assert!(get_proposal(&c, id(3, 1), id(2, 0)).is_err());
}

#[test]
fn chain_tracker_config_defaults_to_a_hundred_milliseconds() {
    assert_eq!(ChainTrackerConfig::default().refresh_interval_ms, DEFAULT_REFRESH_INTERVAL_MS);
    assert_eq!(DEFAULT_REFRESH_INTERVAL_MS, 100);
}

#[test]
fn proposes_empty_and_nonempty_when_expected_in_tracker() {
    let c = chain(4, 2);
    let sb = SessionBoundaries::new(SessionId(0), SessionPeriod(100));
    let mut tracker = ChainTracker::new(sb, ChainTrackerConfig::default());
    // the best block is the finalized one: nothing to propose
    tracker.update_data(&c, &id(2, 0));
    assert!(tracker.take_data().is_none());
    tracker.update_data(&c, &id(4, 0));
    match tracker.take_data() {
        Some(AlephData::HeadProposal(p)) => {
            assert_eq!(p.branch, vec![h(3, 0), h(4, 0)]);
            assert_eq!(p.number, 4);
        },
        _ => panic!("expected a proposal"),
    }
    // taken data is gone, and the same inputs are not recomputed
    tracker.update_data(&c, &id(4, 0));
    assert!(tracker.take_data().is_none());
}

#[test]
fn returns_empty_proposal_above_session_end_in_tracker() {
    let c = chain(12, 10);
    let sb = SessionBoundaries::new(SessionId(0), SessionPeriod(10));
    let mut tracker = ChainTracker::new(sb, ChainTrackerConfig::default());
    tracker.update_data(&c, &id(12, 0));
    assert!(tracker.take_data().is_none());
}

#[test]
fn best_block_in_session_is_cut_at_the_session_end() {
    let c = chain(25, 0);
    let sb = SessionBoundaries::new(SessionId(1), SessionPeriod(10));
    let tracker = ChainTracker::new(sb, ChainTrackerConfig::default());
    assert_eq!(tracker.get_best_block_in_session(&c, None, id(5, 0)), None);
    assert_eq!(tracker.get_best_block_in_session(&c, None, id(15, 0)), Some(id(15, 0)));
    assert_eq!(tracker.get_best_block_in_session(&c, None, id(25, 0)), Some(id(19, 0)));
    assert_eq!(
        tracker.get_best_block_in_session(&c, Some(id(19, 0)), id(25, 0)),
        Some(id(19, 0))
    );
}

#[test]
fn interpreter_finalizes_blocks_of_ordered_data() {
    let c = chain(5, 2);
    let sb = SessionBoundaries::new(SessionId(0), SessionPeriod(100));
    assert_eq!(last_block_prev_session_number(&sb), 0);
    assert_eq!(
        last_block_prev_session_number(&SessionBoundaries::new(SessionId(2), SessionPeriod(10))),
        19
    );
    let mut interpreter = OrderedDataInterpreter::new(sb, id(0, 0));
    let data = AlephData::HeadProposal(UnvalidatedAlephProposal::new(vec![h(3, 0), h(4, 0)], 4));
    assert_eq!(interpreter.data_finalized(&c, data, true), vec![id(3, 0), id(4, 0)]);
    assert!(interpreter.data_finalized(&c, AlephData::Empty, true).is_empty());
    let invalid = AlephData::HeadProposal(UnvalidatedAlephProposal::new(vec![], 4));
    assert!(interpreter.data_finalized(&c, invalid, true).is_empty());
}

#[test]
fn data_store_holds_messages_until_their_blocks_are_available() {
    let mut store: DataStore<&str> = DataStore::new();
    // a message about known blocks goes through at once
    assert_eq!(store.add_message("first", &vec![h(1, 0)], &vec![true]), Some("first"));
    // h(1) is available now, so it is not asked about again
    assert_eq!(store.add_message("second", &vec![h(1, 0), h(2, 0)], &vec![false, false]), None);
    assert_eq!(store.add_message("third", &vec![h(2, 0), h(3, 0)], &vec![false, false]), None);
    assert!(store.add_block(h(9, 0)).is_empty());
    assert_eq!(store.add_block(h(2, 0)), vec!["second"]);
    assert_eq!(store.add_block(h(3, 0)), vec!["third"]);
    assert!(store.add_block(h(3, 0)).is_empty());
}

#[test]
fn data_store_releases_messages_in_arrival_order() {
    let mut store: DataStore<u32> = DataStore::new();
    assert_eq!(store.add_message(1, &vec![h(5, 0), h(5, 0)], &vec![false, false]), None);
    assert_eq!(store.add_message(2, &vec![h(5, 0)], &vec![false]), None);
    assert_eq!(store.add_block(h(5, 0)), vec![1, 2]);
}

#[test]
fn data_store_lists_each_awaited_block_once() {
    let mut store: DataStore<u32> = DataStore::new();
    assert!(store.required_blocks().is_empty());
    assert_eq!(store.add_message(1, &vec![h(5, 0), h(6, 0)], &vec![false, false]), None);
    assert_eq!(store.add_message(2, &vec![h(6, 0), h(7, 0)], &vec![false, true]), None);
    let awaited = store.required_blocks();
    assert_eq!(awaited.len(), 2);
    assert!(awaited.contains(&h(5, 0)) && awaited.contains(&h(6, 0)));
    assert!(store.add_block(h(6, 0)) == vec![2]);
    assert_eq!(store.required_blocks(), vec![h(5, 0)]);
}

const MAX_DATA_BRANCH_LEN: usize = 7;
// A large number only for the purpose of creating proposals
const DUMMY_SESSION_LEN: u32 = 1_000_000;

fn proposal_from_blocks(blocks: Vec<BlockId>) -> AlephProposal {
    let number = blocks.last().unwrap().number;
    let branch = blocks.iter().map(|b| b.hash).collect();
    let session_boundaries = SessionBoundaries::new(SessionId(0), SessionPeriod(DUMMY_SESSION_LEN));
    UnvalidatedAlephProposal::new(branch, number).validate_bounds(&session_boundaries).unwrap()
}

/// `len` blocks on `fork`, numbered from `number` up.
fn branch_above(number: u32, fork: u8, len: usize) -> Vec<BlockId> {
    (0..len as u32).map(|i| id(number + i, fork)).collect()
}

fn import_branch(c: &mut InMemoryChainInfo, parent: BlockHash, blocks: &[BlockId]) {
    let mut parent = parent;
    for b in blocks {
        c.import(*b, parent);
        parent = b.hash;
    }
}

fn finalize_up_to(c: &mut InMemoryChainInfo, blocks: &[BlockId], number: u32) {
    for b in blocks {
        if b.number <= number {
            c.finalize_next(*b);
        }
    }
}

fn verify_proposal_status(c: &InMemoryChainInfo, proposal: &AlephProposal, correct_status: ProposalStatus) {
    let status = get_proposal_status(c, true, proposal, None);
    assert_eq!(status, correct_status, "wrong status for proposal {proposal:?}");
}

fn verify_proposal_of_all_lens_finalizable(blocks: &[BlockId], c: &InMemoryChainInfo) {
    for len in 1..=MAX_DATA_BRANCH_LEN {
        let proposal = proposal_from_blocks(blocks[0..len].to_vec());
        verify_proposal_status(c, &proposal, ProposalStatus::Finalize(proposal.blocks_from_num(0)));
    }
}

#[test]
fn correct_proposals_are_finalizable_even_with_forks() {
    let mut c = InMemoryChainInfo::new(h(0, 0));
    let blocks = branch_above(1, 0, MAX_DATA_BRANCH_LEN * 10);
    import_branch(&mut c, h(0, 0), &blocks);

    verify_proposal_of_all_lens_finalizable(&blocks, &c);

    let fork = branch_above(4, 1, MAX_DATA_BRANCH_LEN * 10);
    import_branch(&mut c, blocks[2].hash, &fork);

    verify_proposal_of_all_lens_finalizable(&blocks, &c);
}

#[test]
fn not_finalized_ancestors_handled_correctly() {
    let mut c = InMemoryChainInfo::new(h(0, 0));
    let blocks = branch_above(1, 0, MAX_DATA_BRANCH_LEN * 10);
    import_branch(&mut c, h(0, 0), &blocks);
    let fork = branch_above(4, 1, MAX_DATA_BRANCH_LEN * 10);
    import_branch(&mut c, blocks[2].hash, &fork);

    for len in 1..=MAX_DATA_BRANCH_LEN {
        let proposal = proposal_from_blocks(blocks[1..(len + 1)].to_vec());
        verify_proposal_status(
            &c,
            &proposal,
            ProposalStatus::Pending(PendingProposalStatus::TopBlockImportedButNotFinalizedAncestor),
        );
        let proposal = proposal_from_blocks(fork[1..(len + 1)].to_vec());
        verify_proposal_status(
            &c,
            &proposal,
            ProposalStatus::Pending(PendingProposalStatus::TopBlockImportedButNotFinalizedAncestor),
        );
    }
}

#[test]
fn incorrect_branch_handled_correctly() {
    let mut c = InMemoryChainInfo::new(h(0, 0));
    let blocks = branch_above(1, 0, MAX_DATA_BRANCH_LEN * 10);
    import_branch(&mut c, h(0, 0), &blocks);

    let incorrect_branch = vec![blocks[0], blocks[1], blocks[3], blocks[5]];
    let proposal = proposal_from_blocks(incorrect_branch);
    verify_proposal_status(
        &c,
        &proposal,
        ProposalStatus::Pending(PendingProposalStatus::TopBlockImportedButIncorrectBranch),
    );

    finalize_up_to(&mut c, &blocks, blocks[1].number);
    verify_proposal_status(
        &c,
        &proposal,
        ProposalStatus::Pending(PendingProposalStatus::TopBlockImportedButIncorrectBranch),
    );

    finalize_up_to(&mut c, &blocks[2..], blocks[10].number);
    verify_proposal_status(&c, &proposal, ProposalStatus::Ignore);
}

#[test]
fn pending_top_block_handled_correctly() {
    let mut c = InMemoryChainInfo::new(h(0, 0));
    let blocks = branch_above(1, 0, MAX_DATA_BRANCH_LEN * 10);

    for len in 1..=MAX_DATA_BRANCH_LEN {
        let proposal = proposal_from_blocks(blocks[0..len].to_vec());
        verify_proposal_status(
            &c,
            &proposal,
            ProposalStatus::Pending(PendingProposalStatus::PendingTopBlock),
        );
    }
    import_branch(&mut c, h(0, 0), &blocks);

    verify_proposal_of_all_lens_finalizable(&blocks, &c);
}

#[test]
fn hopeless_forks_handled_correctly() {
    let mut c = InMemoryChainInfo::new(h(0, 0));
    let blocks = branch_above(1, 0, MAX_DATA_BRANCH_LEN * 10);
    import_branch(&mut c, h(0, 0), &blocks);
    // built, not imported
    let fork = branch_above(4, 1, MAX_DATA_BRANCH_LEN * 10);

    for len in 1..=MAX_DATA_BRANCH_LEN {
        let proposal = proposal_from_blocks(fork[0..len].to_vec());
        verify_proposal_status(
            &c,
            &proposal,
            ProposalStatus::Pending(PendingProposalStatus::PendingTopBlock),
        );
    }

    finalize_up_to(&mut c, &blocks, blocks[2].number);

    for len in 1..=MAX_DATA_BRANCH_LEN {
        let proposal = proposal_from_blocks(fork[0..len].to_vec());
        verify_proposal_status(
            &c,
            &proposal,
            ProposalStatus::Pending(PendingProposalStatus::PendingTopBlock),
        );
    }

    finalize_up_to(&mut c, &blocks[3..], blocks[3].number);

    for len in 1..=MAX_DATA_BRANCH_LEN {
        let proposal = proposal_from_blocks(fork[0..len].to_vec());
        verify_proposal_status(&c, &proposal, ProposalStatus::Ignore);
    }
    // Proposal below finalized should be ignored
    verify_proposal_status(&c, &proposal_from_blocks(blocks[0..4].to_vec()), ProposalStatus::Ignore);

    // New proposals above finalized should be finalizable.
    let fresh_proposal = proposal_from_blocks(blocks[4..6].to_vec());
    verify_proposal_status(
        &c,
        &fresh_proposal,
        ProposalStatus::Finalize(fresh_proposal.blocks_from_num(0)),
    );

    // Long proposals should finalize the appropriate suffix.
    let long_proposal = proposal_from_blocks(blocks[0..6].to_vec());
    verify_proposal_status(
        &c,
        &long_proposal,
        // We are using fresh_proposal here on purpose, to only check the expected blocks.
        ProposalStatus::Finalize(fresh_proposal.blocks_from_num(0)),
    );
}

const SESSION_LEN: u32 = 100;

/// One refresh of the tracker: the best block in the session, and the data computed from it.
fn refresh(
    tracker: &mut ChainTracker,
    c: &InMemoryChainInfo,
    prev: Option<BlockId>,
    best: BlockId,
) -> Option<BlockId> {
    let best_in_session = tracker.get_best_block_in_session(c, prev, best);
    if let Some(b) = &best_in_session {
        tracker.update_data(c, b);
    }
    best_in_session
}

fn assert_proposes(data: Option<AlephData>, blocks: &[BlockId]) {
    match data {
        Some(AlephData::HeadProposal(p)) => {
            assert_eq!(p.branch, blocks.iter().map(|b| b.hash).collect::<Vec<_>>());
            assert_eq!(p.number, blocks.last().unwrap().number);
        },
        other => panic!("expected a proposal of {blocks:?}, got {other:?}"),
    }
}

fn new_tracker() -> ChainTracker {
    let session_boundaries = SessionBoundaries::new(SessionId(0), SessionPeriod(SESSION_LEN));
    ChainTracker::new(session_boundaries, ChainTrackerConfig::default())
}

#[test]
fn proposes_empty_and_nonempty_when_expected() {
    let mut c = InMemoryChainInfo::new(h(0, 0));
    let mut tracker = new_tracker();
    let best = refresh(&mut tracker, &c, None, id(0, 0));
    assert!(tracker.take_data().is_none(), "Expected empty proposal");

    let blocks = branch_above(1, 0, 2 * MAX_DATA_BRANCH_LEN);
    import_branch(&mut c, h(0, 0), &blocks);
    refresh(&mut tracker, &c, best, *blocks.last().unwrap());

    assert_proposes(tracker.take_data(), &blocks[..MAX_DATA_BRANCH_LEN]);
}

#[test]
fn proposal_changes_with_finalization() {
    let mut c = InMemoryChainInfo::new(h(0, 0));
    let mut tracker = new_tracker();
    let blocks = branch_above(1, 0, 3 * MAX_DATA_BRANCH_LEN);
    import_branch(&mut c, h(0, 0), &blocks);
    let mut best = None;
    for height in 1..(2 * MAX_DATA_BRANCH_LEN) {
        assert!(c.finalize_next(blocks[height - 1]));
        best = refresh(&mut tracker, &c, best, *blocks.last().unwrap());
        assert_proposes(tracker.take_data(), &blocks[height..(MAX_DATA_BRANCH_LEN + height)]);
    }
    finalize_up_to(&mut c, &blocks[2 * MAX_DATA_BRANCH_LEN - 1..], blocks.last().unwrap().number);
    refresh(&mut tracker, &c, best, *blocks.last().unwrap());
    assert!(tracker.take_data().is_none(), "Expected empty proposal");
}

#[test]
fn returns_empty_proposal_above_session_end() {
    let mut c = InMemoryChainInfo::new(h(0, 0));
    let mut tracker = new_tracker();
    let blocks = branch_above(1, 0, (SESSION_LEN as usize) + 3 * MAX_DATA_BRANCH_LEN);
    import_branch(&mut c, h(0, 0), &blocks);
    let best = refresh(&mut tracker, &c, None, *blocks.last().unwrap());
    assert_proposes(tracker.take_data(), &blocks[0..MAX_DATA_BRANCH_LEN]);

    // Finalize a block beyond the last block in the session.
    finalize_up_to(&mut c, &blocks, blocks.last().unwrap().number);
    refresh(&mut tracker, &c, best, *blocks.last().unwrap());
    assert!(tracker.take_data().is_none(), "Expected empty proposal");
}
