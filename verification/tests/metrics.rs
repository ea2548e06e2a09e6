use finality_aleph::metrics::chain_status::{detect_reorgs, ChainStatusJob};
use finality_aleph::metrics::finality_rate::FinalityRateMetrics;
use finality_aleph::metrics::{
    BlockMetrics, Checkpoint, Observation, ObservationKind, MAX_BLOCKS_PER_CHECKPOINT,
};
use finality_aleph::primitives::BlockHash;

fn random_hash() -> BlockHash {
    BlockHash(rand::random::<[u8; 32]>())
}

fn register_prometheus_metrics_with_dummy_registry() -> BlockMetrics {
    BlockMetrics::new(true)
}

fn check_reporting_with_memory_excess(metrics: &mut BlockMetrics, checkpoint: Checkpoint) {
    for i in 1..(MAX_BLOCKS_PER_CHECKPOINT + 10) {
        metrics.report_block(random_hash(), 1_000, checkpoint);
        assert_eq!(
            std::cmp::min(i, MAX_BLOCKS_PER_CHECKPOINT),
            metrics.starts_len(checkpoint)
        )
    }
}

#[test]
fn noop_metrics() {
    let mut m = BlockMetrics::noop();
    m.report_block(random_hash(), 1_000, Checkpoint::Ordered);
    assert!(matches!(m, BlockMetrics::Noop));
}

#[test]
fn should_keep_entries_up_to_defined_limit() {
    let mut m = register_prometheus_metrics_with_dummy_registry();
    check_reporting_with_memory_excess(&mut m, Checkpoint::Ordered);
}

#[test]
fn should_manage_space_for_checkpoints_independently() {
    let mut m = register_prometheus_metrics_with_dummy_registry();
    check_reporting_with_memory_excess(&mut m, Checkpoint::Ordered);
    check_reporting_with_memory_excess(&mut m, Checkpoint::Imported);
}

#[test]
fn given_not_monotonic_clock_when_report_block_is_called_repeatedly_code_does_not_panic() {
    let mut metrics = register_prometheus_metrics_with_dummy_registry();
    let earlier_timestamp = 1_000_000u64;
    let later_timestamp = earlier_timestamp + 5;
    let hash = random_hash();
    metrics.report_block(hash, later_timestamp, Checkpoint::Proposed);
    let observations = metrics.report_block(hash, earlier_timestamp, Checkpoint::Ordered);
    assert_eq!(
        observations,
        vec![Observation {
            kind: ObservationKind::TimeSincePrevCheckpoint(Checkpoint::Ordered),
            duration: 0,
        }]
    );
}

#[test]
fn tests_hash_conversion() {
    let mut metrics = register_prometheus_metrics_with_dummy_registry();
    let timestamp1 = 1_000_000u64;
    let timestamp2 = timestamp1 + 5;
    let hash = [random_hash(), random_hash(), random_hash()];

    metrics.report_block(hash[0], timestamp1, Checkpoint::Proposed);
    metrics.report_block(hash[1], timestamp2, Checkpoint::Proposed);

    metrics.convert_header_hash_to_post_hash(hash[0], hash[2], Checkpoint::Proposed);

    let entries = metrics.starts_entries(Checkpoint::Proposed);
    assert_eq!(entries, &[(hash[2], timestamp1), (hash[1], timestamp2)]);
}

#[test]
fn test_report_block_if_not_present() {
    let mut metrics = register_prometheus_metrics_with_dummy_registry();
    let earlier_timestamp = 1_000_000u64;
    let later_timestamp = earlier_timestamp + 5;
    let hash = random_hash();

    metrics.report_block(hash, earlier_timestamp, Checkpoint::Proposed);
    metrics.report_block_if_not_present(hash, later_timestamp, Checkpoint::Ordered);

    let timestamp = metrics
        .starts_entries(Checkpoint::Proposed)
        .into_iter()
        .find(|(h, _)| *h == hash)
        .map(|(_, t)| t);
    assert_eq!(timestamp, Some(earlier_timestamp));
}

#[test]
fn report_block_observes_time_since_previous_checkpoint() {
    let mut metrics = BlockMetrics::new(true);
    let hash = random_hash();
    assert!(metrics.report_block(hash, 100, Checkpoint::Importing).is_empty());
    let observations = metrics.report_block(hash, 250, Checkpoint::Imported);
    assert_eq!(
        observations,
        vec![Observation {
            kind: ObservationKind::TimeSincePrevCheckpoint(Checkpoint::Imported),
            duration: 150,
        }]
    );
}

#[test]
fn finalization_observes_time_since_import() {
    let mut metrics = BlockMetrics::new(true);
    let hash = random_hash();
    metrics.report_block(hash, 100, Checkpoint::Imported);
    metrics.report_block(hash, 300, Checkpoint::Ordered);
    let observations = metrics.report_block(hash, 1_000, Checkpoint::Finalized);
    assert_eq!(
        observations,
        vec![
            Observation {
                kind: ObservationKind::TimeSincePrevCheckpoint(Checkpoint::Finalized),
                duration: 700,
            },
            Observation { kind: ObservationKind::ImportedToFinalized, duration: 900 },
        ]
    );
}

#[test]
fn report_block_if_not_present_reports_new_blocks() {
    let mut metrics = BlockMetrics::new(true);
    let hash = random_hash();
    metrics.report_block_if_not_present(hash, 10, Checkpoint::Importing);
    metrics.report_block_if_not_present(hash, 20, Checkpoint::Importing);
    assert_eq!(metrics.starts_entries(Checkpoint::Importing), vec![(hash, 10)]);
}

#[test]
fn checkpoints_follow_each_other() {
    assert_eq!(Checkpoint::Importing.prev(), None);
    assert_eq!(Checkpoint::Imported.prev(), Some(Checkpoint::Importing));
    assert_eq!(Checkpoint::Proposed.prev(), Some(Checkpoint::Imported));
    assert_eq!(Checkpoint::Ordered.prev(), Some(Checkpoint::Proposed));
    assert_eq!(Checkpoint::Finalized.prev(), Some(Checkpoint::Ordered));
}

#[test]
fn disabled_metrics_keep_nothing() {
    let mut metrics = BlockMetrics::new(false);
    assert!(metrics.is_noop());
    assert!(metrics.report_block(random_hash(), 5, Checkpoint::Imported).is_empty());
    assert_eq!(metrics.starts_len(Checkpoint::Imported), 0);
}

#[test]
fn finality_rate_counts_finalized_and_hopeless_blocks() {
    let mut metrics = FinalityRateMetrics::new(true);
    let (a, b, c) = (random_hash(), random_hash(), random_hash());
    metrics.report_own_imported(a, 7);
    metrics.report_own_imported(b, 7);
    metrics.report_own_imported(c, 8);
    assert_eq!(metrics.report_finalized(a, 7), (1, 1));
    // settled numbers are forgotten
    assert_eq!(metrics.report_finalized(a, 7), (0, 0));
    assert_eq!(metrics.report_finalized(random_hash(), 8), (0, 1));
}

#[test]
fn noop_finality_rate_counts_nothing() {
    let mut metrics = FinalityRateMetrics::new(false);
    let a = random_hash();
    metrics.report_own_imported(a, 3);
    assert_eq!(metrics.report_finalized(a, 3), (0, 0));
}

fn h(byte: u8) -> BlockHash {
    BlockHash([byte; 32])
}

#[test]
fn reorgs_are_detected_from_the_common_ancestor() {
    // no previous best block
    assert_eq!(detect_reorgs(None, h(2), h(1), 5, |_, _| Some(0)), None);
    // a child of the previous best block
    assert_eq!(detect_reorgs(Some(h(1)), h(2), h(1), 5, |_, _| Some(0)), None);
    // the same block
    assert_eq!(detect_reorgs(Some(h(2)), h(2), h(1), 5, |_, _| Some(0)), None);
    // a different branch, forking off at height 2
    assert_eq!(detect_reorgs(Some(h(9)), h(2), h(1), 5, |_, _| Some(2)), Some(3));
    // a descendant further up: the common ancestor is the block itself
    assert_eq!(detect_reorgs(Some(h(9)), h(2), h(1), 5, |_, _| Some(5)), None);
    // unknown common ancestor
    assert_eq!(detect_reorgs(Some(h(9)), h(2), h(1), 5, |_, _| None), None);
}

#[test]
fn chain_status_job_remembers_the_best_block() {
    let mut job = ChainStatusJob::new();
    let report = job.on_best_block(h(1), h(0), 1, |_, _| Some(0));
    assert_eq!(report.best_block, 1);
    assert_eq!(report.reorg, None);
    let report = job.on_best_block(h(5), h(4), 3, |_, _| Some(1));
    assert_eq!(report.best_block, 3);
    assert_eq!(report.reorg, Some(2));
}
