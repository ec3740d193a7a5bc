use billing_aggregator::{
    AggregationKey, AggregatorState, BillingAggregatorConfig, FlagRequestType, FlushPolicy,
    Library, RecordOutcome,
};
use std::time::Duration;

const BUCKET: u64 = 14_166_666;

fn test_config() -> BillingAggregatorConfig {
    BillingAggregatorConfig {
        flush_interval: Duration::from_millis(50),
        max_pending_entries: 10_000,
        per_flush_batch_size: 200,
        shutdown_flush_timeout: Duration::from_secs(1),
    }
}

fn key(team_id: i32, library: Option<Library>) -> AggregationKey {
    AggregationKey {
        team_id,
        request_type: FlagRequestType::Decide,
        library,
        bucket: BUCKET,
    }
}

#[test]
fn test_record_aggregates_duplicate_keys() {
    let mut agg = AggregatorState::new(test_config());

    agg.record(1, FlagRequestType::Decide, Some(Library::PosthogJs), BUCKET);
    agg.record(1, FlagRequestType::Decide, Some(Library::PosthogJs), BUCKET);
    agg.record(1, FlagRequestType::Decide, Some(Library::PosthogJs), BUCKET);

    assert_eq!(agg.pending_len(), 1);
    assert_eq!(agg.pending_count(&key(1, Some(Library::PosthogJs))), Some(3));
}

#[test]
fn test_record_saturates_at_u64_max_instead_of_wrapping() {
    let mut agg = AggregatorState::new(test_config());
    let k = key(1, Some(Library::PosthogJs));

    agg.set_pending(k, u64::MAX);

    let outcome = agg.record(1, FlagRequestType::Decide, Some(Library::PosthogJs), BUCKET);

    assert_eq!(agg.pending_count(&k), Some(u64::MAX));
    assert_eq!(outcome, RecordOutcome::Saturated);
}

#[test]
fn test_record_distinct_libraries_are_separate_keys() {
    let mut agg = AggregatorState::new(test_config());

    agg.record(1, FlagRequestType::Decide, Some(Library::PosthogJs), BUCKET);
    agg.record(1, FlagRequestType::Decide, Some(Library::PosthogNode), BUCKET);
    agg.record(1, FlagRequestType::Decide, None, BUCKET);

    assert_eq!(agg.pending_len(), 3);
}

#[test]
fn test_cap_drops_new_record_when_full() {
    let config = BillingAggregatorConfig {
        max_pending_entries: 2,
        ..test_config()
    };
    let mut agg = AggregatorState::new(config);

    agg.record(1, FlagRequestType::Decide, None, BUCKET);
    agg.record(2, FlagRequestType::Decide, None, BUCKET);
    assert_eq!(agg.pending_len(), 2);

    let outcome = agg.record(3, FlagRequestType::Decide, None, BUCKET);
    assert_eq!(agg.pending_len(), 2, "new key must be dropped at cap");
    assert_eq!(outcome, RecordOutcome::Capped);

    let pending = agg.pending_entries();
    assert!(pending.iter().any(|(k, _)| k.team_id == 1));
    assert!(pending.iter().any(|(k, _)| k.team_id == 2));
    assert!(
        !pending.iter().any(|(k, _)| k.team_id == 3),
        "team 3 should have been capped out"
    );
}

#[test]
fn test_cap_allows_existing_key_increment() {
    let config = BillingAggregatorConfig {
        max_pending_entries: 2,
        ..test_config()
    };
    let mut agg = AggregatorState::new(config);

    agg.record(1, FlagRequestType::Decide, None, BUCKET);
    agg.record(2, FlagRequestType::Decide, None, BUCKET);
    let outcome = agg.record(1, FlagRequestType::Decide, None, BUCKET);

    assert_eq!(agg.pending_len(), 2);
    assert_eq!(agg.pending_count(&key(1, None)), Some(2));
    assert_eq!(outcome, RecordOutcome::Counted);
}

#[test]
fn test_sample_metrics_reads_live_pending_and_in_flight() {
    let mut agg = AggregatorState::new(test_config());
    // Park 42 counts in flight, then record two more keys behind them.
    for _ in 0..42 {
        agg.record(9, FlagRequestType::Decide, None, BUCKET);
    }
    let run = agg.begin_flush(FlushPolicy::BailOnError, 1);
    assert!(run.is_some());
    agg.record(1, FlagRequestType::Decide, None, BUCKET);
    agg.record(2, FlagRequestType::Decide, None, BUCKET);

    let snapshot = agg.metrics_snapshot();
    assert_eq!(snapshot.pending_entries, 2);
    assert_eq!(snapshot.pending_counts, 2);
    assert_eq!(snapshot.in_flight_uncredited, 42);
    assert_eq!(snapshot.last_successful_flush_epoch_ms, 0);
}

#[test]
fn record_counts_requests_by_type() {
    let mut agg = AggregatorState::new(test_config());
    agg.record(1, FlagRequestType::Decide, None, BUCKET);
    agg.record(1, FlagRequestType::Decide, None, BUCKET);
    agg.record(1, FlagRequestType::FlagDefinitions, None, BUCKET);
    assert_eq!(agg.take_record_counts(), (2, 1));
    assert_eq!(agg.take_record_counts(), (0, 0));
}

#[test]
fn capped_records_still_count_by_type() {
    let config = BillingAggregatorConfig {
        max_pending_entries: 1,
        ..test_config()
    };
    let mut agg = AggregatorState::new(config);
    agg.record(1, FlagRequestType::Decide, None, BUCKET);
    assert_eq!(
        agg.record(2, FlagRequestType::Decide, None, BUCKET),
        RecordOutcome::Capped
    );
    assert_eq!(agg.take_record_counts(), (2, 0));
}

#[test]
fn distinct_buckets_are_distinct_keys() {
    let mut agg = AggregatorState::new(test_config());
    agg.record(1, FlagRequestType::Decide, None, 100);
    agg.record(1, FlagRequestType::Decide, None, 101);
    agg.record(1, FlagRequestType::FlagDefinitions, None, 100);
    assert_eq!(agg.pending_len(), 3);
}

#[test]
fn shutdown_drops_sum_pending_and_in_flight() {
    let mut agg = AggregatorState::new(test_config());
    for _ in 0..7 {
        agg.record(1, FlagRequestType::Decide, None, BUCKET);
    }
    let _run = agg.begin_flush(FlushPolicy::BestEffort, 1);
    agg.record(2, FlagRequestType::Decide, None, BUCKET);
    agg.record(3, FlagRequestType::Decide, None, BUCKET);
    assert_eq!(agg.shutdown_drops(), 9);
}

#[test]
fn shutdown_drops_saturate() {
    let mut agg = AggregatorState::new(test_config());
    agg.set_pending(
        AggregationKey {
            team_id: 1,
            request_type: FlagRequestType::Decide,
            library: None,
            bucket: 1,
        },
        u64::MAX,
    );
    agg.set_pending(
        AggregationKey {
            team_id: 2,
            request_type: FlagRequestType::Decide,
            library: None,
            bucket: 1,
        },
        5,
    );
    assert_eq!(agg.shutdown_drops(), u64::MAX);
}
