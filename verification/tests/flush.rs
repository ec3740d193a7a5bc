use billing_aggregator::{
    flusher_step, get_team_request_key, get_team_request_library_key, AggregationKey,
    AggregatorState, BillingAggregatorConfig, ChunkOutcome, FlagRequestType, FlushPolicy,
    FlushRun, FlusherEvent, FlusherPhase, IncrementCommand, Library,
};
use std::time::Duration;

const BUCKET: u64 = 14_166_666;

fn test_config() -> BillingAggregatorConfig {
    BillingAggregatorConfig {
        flush_interval: Duration::from_millis(50),
        max_pending_entries: 10_000,
        per_flush_batch_size: 200,
        shutdown_flush_timeout: Duration::from_secs(1),
    }
}

/// Stand-in for a Redis pipeline: records every command it is handed as
/// `("{key}:{field}", count)`, whether or not the pipeline then fails.
#[derive(Default)]
struct FakeRedis {
    calls: Vec<(String, i64)>,
    pipelines: usize,
    fail_always: bool,
    fail_at_call: Option<usize>,
}

impl FakeRedis {
    fn failing() -> Self {
        FakeRedis {
            fail_always: true,
            ..Default::default()
        }
    }

    fn failing_at(call: usize) -> Self {
        FakeRedis {
            fail_at_call: Some(call),
            ..Default::default()
        }
    }

    fn execute_pipeline(&mut self, commands: Vec<IncrementCommand>) -> bool {
        for c in commands {
            self.calls.push((format!("{}:{}", c.key, c.field), c.count));
        }
        let call = self.pipelines;
        self.pipelines += 1;
        !(self.fail_always || self.fail_at_call == Some(call))
    }
}

/// Runs every chunk of a flush run against `redis`.
fn run_chunks(agg: &mut AggregatorState, run: &mut FlushRun, redis: &mut FakeRedis) {
    while let Some(chunk) = run.next_chunk() {
        let ok = redis.execute_pipeline(chunk.commands);
        let outcome = run.settle_chunk(ok);
        agg.credit_chunk(run, outcome);
    }
}

/// Settles a finished run: re-queues what must be retried, then closes
/// the flush's accounting.
fn settle(agg: &mut AggregatorState, run: FlushRun, now_ms: u64) {
    let result = run.finish();
    if !result.requeue.is_empty() {
        let mut merged = agg.take_pending_for_requeue(result.requeued_counts);
        merged.merge_entries(&result.requeue);
        agg.restore_pending(merged);
    }
    agg.finish_flush(result.any_error, now_ms);
}

/// One whole flush: drain, write every chunk, settle.
fn flush_once(agg: &mut AggregatorState, redis: &mut FakeRedis, policy: FlushPolicy, now_ms: u64) {
    agg.take_record_counts();
    if let Some(mut run) = agg.begin_flush(policy, now_ms) {
        run_chunks(agg, &mut run, redis);
        settle(agg, run, now_ms);
    }
}

fn record_n_decide_with_library(agg: &mut AggregatorState, n: i32) {
    for team_id in 1..=n {
        agg.record(team_id, FlagRequestType::Decide, Some(Library::PosthogJs), BUCKET);
    }
}

#[test]
fn test_flush_once_writes_pipelined_hincrby() {
    let mut agg = AggregatorState::new(test_config());
    let mut redis = FakeRedis::default();

    agg.record(42, FlagRequestType::Decide, Some(Library::PosthogJs), BUCKET);
    agg.record(42, FlagRequestType::Decide, Some(Library::PosthogJs), BUCKET);
    agg.record(7, FlagRequestType::Decide, None, BUCKET);

    flush_once(&mut agg, &mut redis, FlushPolicy::BailOnError, 1);

    let calls = redis.calls;
    assert_eq!(calls.len(), 3);

    let bucket = BUCKET;
    let expected_team_42_team = format!(
        "{}:{bucket}",
        get_team_request_key(42, FlagRequestType::Decide)
    );
    let expected_team_42_sdk = format!(
        "{}:{bucket}",
        get_team_request_library_key(42, FlagRequestType::Decide, Library::PosthogJs)
    );
    let expected_team_7_team = format!(
        "{}:{bucket}",
        get_team_request_key(7, FlagRequestType::Decide)
    );

    assert!(
        calls.contains(&(expected_team_42_team.clone(), 2)),
        "expected team 42 team key with count 2, got {:?}",
        calls
    );
    assert!(
        calls.contains(&(expected_team_42_sdk.clone(), 2)),
        "expected team 42 sdk key with count 2, got {:?}",
        calls
    );
    assert!(
        calls.contains(&(expected_team_7_team.clone(), 1)),
        "expected team 7 team key with count 1, got {:?}",
        calls
    );
}

#[test]
fn test_flush_once_writes_flag_definitions_keys() {
    let mut agg = AggregatorState::new(test_config());
    let mut redis = FakeRedis::default();

    agg.record(42, FlagRequestType::FlagDefinitions, Some(Library::PosthogJs), BUCKET);

    flush_once(&mut agg, &mut redis, FlushPolicy::BailOnError, 1);

    let bucket = BUCKET;
    let calls = redis.calls;
    let expected_team = format!("posthog:local_evaluation_requests:42:{bucket}");
    let expected_sdk = format!("posthog:local_evaluation_requests:sdk:42:posthog-js:{bucket}");
    assert_eq!(calls.len(), 2);
    assert!(calls.contains(&(expected_team, 1)));
    assert!(calls.contains(&(expected_sdk, 1)));
}

#[test]
fn library_command_precedes_team_command() {
    let mut agg = AggregatorState::new(test_config());
    let mut redis = FakeRedis::default();
    agg.record(5, FlagRequestType::Decide, Some(Library::PosthogNode), 9);
    flush_once(&mut agg, &mut redis, FlushPolicy::BailOnError, 1);
    assert_eq!(
        redis.calls,
        vec![
            ("posthog:decide_requests:sdk:5:posthog-node:9".to_string(), 1),
            ("posthog:decide_requests:5:9".to_string(), 1),
        ]
    );
}

#[test]
fn test_flush_once_drains_pending() {
    let mut agg = AggregatorState::new(test_config());
    let mut redis = FakeRedis::default();

    agg.record(1, FlagRequestType::Decide, None, BUCKET);
    assert_eq!(agg.pending_len(), 1);

    flush_once(&mut agg, &mut redis, FlushPolicy::BailOnError, 1);
    assert_eq!(agg.pending_len(), 0);
}

#[test]
fn test_flush_chunks_commands_at_batch_size() {
    let config = BillingAggregatorConfig {
        per_flush_batch_size: 2,
        ..test_config()
    };
    let mut agg = AggregatorState::new(config);
    let mut redis = FakeRedis::default();

    record_n_decide_with_library(&mut agg, 5);

    flush_once(&mut agg, &mut redis, FlushPolicy::BailOnError, 1);

    assert_eq!(
        redis.calls.len(),
        10,
        "all commands should be flushed across chunks"
    );
    assert_eq!(redis.pipelines, 5);
}

#[test]
fn chunks_never_split_a_key_and_overshoot_by_at_most_one() {
    // Batch of 3 commands; keys with a library take 2, so a chunk can hold
    // 4 commands (2 + 2) but never splits a key.
    let config = BillingAggregatorConfig {
        per_flush_batch_size: 3,
        ..test_config()
    };
    let mut agg = AggregatorState::new(config);
    record_n_decide_with_library(&mut agg, 4);
    let mut run = agg.begin_flush(FlushPolicy::BailOnError, 1).unwrap();
    let mut sizes = Vec::new();
    while let Some(chunk) = run.next_chunk() {
        sizes.push(chunk.commands.len());
        let outcome = run.settle_chunk(true);
        assert_eq!(outcome, ChunkOutcome::Written);
        agg.credit_chunk(&run, outcome);
    }
    assert_eq!(sizes, vec![4, 4]);
}

#[test]
fn zero_batch_size_is_treated_as_one() {
    let config = BillingAggregatorConfig {
        per_flush_batch_size: 0,
        ..test_config()
    };
    let mut agg = AggregatorState::new(config);
    let mut redis = FakeRedis::default();
    agg.record(1, FlagRequestType::Decide, None, BUCKET);
    agg.record(2, FlagRequestType::Decide, None, BUCKET);
    flush_once(&mut agg, &mut redis, FlushPolicy::BailOnError, 1);
    assert_eq!(redis.pipelines, 2);
    assert_eq!(redis.calls.len(), 2);
}

#[test]
fn test_flush_failure_increments_consecutive_failures() {
    let mut agg = AggregatorState::new(test_config());
    let mut redis = FakeRedis::failing();

    agg.record(1, FlagRequestType::Decide, None, BUCKET);
    flush_once(&mut agg, &mut redis, FlushPolicy::BailOnError, 1);
    assert_eq!(agg.consecutive_failures(), 1);

    agg.record(1, FlagRequestType::Decide, None, BUCKET);
    flush_once(&mut agg, &mut redis, FlushPolicy::BailOnError, 2);
    assert_eq!(agg.consecutive_failures(), 2);
}

#[test]
fn test_flush_empty_drain_resets_consecutive_failures() {
    let mut agg = AggregatorState::new(test_config());
    let mut redis = FakeRedis::failing();

    agg.record(1, FlagRequestType::Decide, None, BUCKET);
    flush_once(&mut agg, &mut redis, FlushPolicy::BailOnError, 1);
    assert_eq!(agg.consecutive_failures(), 1);

    // The failed flush re-queued the entry; clear it to build an empty drain.
    let _ = agg.take_pending_for_requeue(0);

    flush_once(&mut agg, &mut redis, FlushPolicy::BailOnError, 2);
    assert_eq!(agg.consecutive_failures(), 0);
}

#[test]
fn test_flush_success_after_failure_resets_consecutive_failures() {
    let mut agg = AggregatorState::new(test_config());
    let mut redis = FakeRedis::failing_at(0);

    agg.record(1, FlagRequestType::Decide, None, BUCKET);
    flush_once(&mut agg, &mut redis, FlushPolicy::BailOnError, 1);
    assert_eq!(agg.consecutive_failures(), 1);

    agg.record(2, FlagRequestType::Decide, None, BUCKET);
    flush_once(&mut agg, &mut redis, FlushPolicy::BailOnError, 2);
    assert_eq!(
        agg.consecutive_failures(),
        0,
        "successful non-empty flush must reset the counter"
    );
}

#[test]
fn test_flush_bail_mode_breaks_on_first_chunk_error() {
    let config = BillingAggregatorConfig {
        per_flush_batch_size: 2,
        ..test_config()
    };
    let mut agg = AggregatorState::new(config);
    let mut redis = FakeRedis::failing();

    record_n_decide_with_library(&mut agg, 5);

    flush_once(&mut agg, &mut redis, FlushPolicy::BailOnError, 1);

    assert_eq!(
        redis.calls.len(),
        2,
        "only the first failing chunk should be attempted"
    );
}

#[test]
fn test_flush_bail_mode_requeues_failed_and_unattempted_entries() {
    let config = BillingAggregatorConfig {
        per_flush_batch_size: 2,
        ..test_config()
    };
    let mut agg = AggregatorState::new(config);
    let mut redis = FakeRedis::failing();

    for team_id in 1..=5 {
        for _ in 0..team_id {
            agg.record(team_id, FlagRequestType::Decide, Some(Library::PosthogJs), BUCKET);
        }
    }
    assert_eq!(agg.pending_len(), 5);

    flush_once(&mut agg, &mut redis, FlushPolicy::BailOnError, 1);

    assert_eq!(
        agg.pending_len(),
        5,
        "all failed+unattempted entries must be re-queued"
    );
    let pending = agg.pending_entries();
    let total: u64 = pending.iter().map(|(_, c)| *c).sum();
    assert_eq!(total, 1 + 2 + 3 + 4 + 5, "requeued counts must be preserved");
    for (key, count) in pending.iter() {
        assert_eq!(
            *count, key.team_id as u64,
            "team {} requeued with wrong count {count}",
            key.team_id,
        );
    }
    assert_eq!(agg.in_flight_uncredited(), 0);
}

#[test]
fn test_flush_bail_mode_requeue_merges_with_concurrent_records() {
    let mut agg = AggregatorState::new(test_config());
    let mut redis = FakeRedis::failing();

    agg.record(1, FlagRequestType::Decide, None, BUCKET);

    let mut run = agg.begin_flush(FlushPolicy::BailOnError, 1).unwrap();
    // A record lands in the post-drain map while the flush is in flight.
    agg.record(1, FlagRequestType::Decide, None, BUCKET);
    run_chunks(&mut agg, &mut run, &mut redis);
    settle(&mut agg, run, 1);

    let total: u64 = agg.pending_entries().iter().map(|(_, c)| *c).sum();
    assert_eq!(total, 2, "requeue must merge, not overwrite or drop");
}

#[test]
fn requeue_merges_records_arriving_during_the_merge() {
    let mut agg = AggregatorState::new(test_config());
    let mut redis = FakeRedis::failing();
    agg.record(1, FlagRequestType::Decide, None, BUCKET);
    let mut run = agg.begin_flush(FlushPolicy::BailOnError, 1).unwrap();
    agg.record(1, FlagRequestType::Decide, None, BUCKET);
    run_chunks(&mut agg, &mut run, &mut redis);
    let result = run.finish();
    assert_eq!(result.requeued_counts, 1);
    assert_eq!(agg.in_flight_uncredited(), 1);
    let mut merged = agg.take_pending_for_requeue(result.requeued_counts);
    assert_eq!(agg.in_flight_uncredited(), 0);
    // Another record arrives while the lock is released for the merge.
    agg.record(1, FlagRequestType::Decide, None, BUCKET);
    agg.record(2, FlagRequestType::Decide, None, BUCKET);
    merged.merge_entries(&result.requeue);
    agg.restore_pending(merged);
    agg.finish_flush(result.any_error, 1);
    let key1 = AggregationKey {
        team_id: 1,
        request_type: FlagRequestType::Decide,
        library: None,
        bucket: BUCKET,
    };
    assert_eq!(agg.pending_count(&key1), Some(3));
    assert_eq!(agg.pending_len(), 2);
}

#[test]
fn test_flush_bail_mode_recovery_flushes_requeued() {
    let mut agg = AggregatorState::new(test_config());
    let mut redis = FakeRedis::failing_at(0);

    agg.record(1, FlagRequestType::Decide, None, BUCKET);
    agg.record(2, FlagRequestType::Decide, None, BUCKET);
    flush_once(&mut agg, &mut redis, FlushPolicy::BailOnError, 1);

    assert_eq!(agg.pending_len(), 2, "first flush should requeue on error");
    let calls_after_first = redis.calls.len();

    flush_once(&mut agg, &mut redis, FlushPolicy::BailOnError, 2);
    assert_eq!(agg.pending_len(), 0, "second flush should drain pending");

    let second_flush_calls: Vec<_> = redis.calls[calls_after_first..].to_vec();
    let total: i64 = second_flush_calls.iter().map(|(_, v)| *v).sum();
    assert_eq!(
        total, 2,
        "total recorded requests must reach Redis after recovery, got {second_flush_calls:?}"
    );
}

#[test]
fn test_flush_bail_mode_middle_chunk_failure_credits_successful_and_requeues_rest() {
    let config = BillingAggregatorConfig {
        per_flush_batch_size: 2,
        ..test_config()
    };
    let mut agg = AggregatorState::new(config);
    let mut redis = FakeRedis::failing_at(1);

    record_n_decide_with_library(&mut agg, 3);

    flush_once(&mut agg, &mut redis, FlushPolicy::BailOnError, 1);

    assert_eq!(
        agg.pending_len(),
        2,
        "successful chunk's entries must NOT be requeued",
    );
    let pending_total: u64 = agg.pending_entries().iter().map(|(_, c)| *c).sum();
    assert_eq!(pending_total, 2);
    assert_eq!(agg.in_flight_uncredited(), 0);
}

#[test]
fn test_flush_best_effort_mode_attempts_all_chunks_despite_errors() {
    let config = BillingAggregatorConfig {
        per_flush_batch_size: 2,
        ..test_config()
    };
    let mut agg = AggregatorState::new(config);
    let mut redis = FakeRedis::failing();

    record_n_decide_with_library(&mut agg, 5);

    flush_once(&mut agg, &mut redis, FlushPolicy::BestEffort, 1);

    assert_eq!(
        redis.calls.len(),
        10,
        "all chunks should be attempted in best-effort mode"
    );
    assert_eq!(agg.consecutive_failures(), 1);
    assert_eq!(agg.in_flight_uncredited(), 0);
    // Best-effort never re-queues: the failed counts are dropped.
    assert_eq!(agg.pending_len(), 0);
}

#[test]
fn test_flush_best_effort_credits_successful_chunks_around_error() {
    let config = BillingAggregatorConfig {
        per_flush_batch_size: 2,
        ..test_config()
    };
    let mut agg = AggregatorState::new(config);
    let mut redis = FakeRedis::failing_at(1);

    record_n_decide_with_library(&mut agg, 5);

    agg.take_record_counts();
    let mut run = agg.begin_flush(FlushPolicy::BestEffort, 1).unwrap();
    run_chunks(&mut agg, &mut run, &mut redis);
    let result = run.finish();
    assert_eq!(result.flushed_counts, 4);
    assert_eq!(result.dropped_counts, 1);
    assert_eq!(result.requeued_counts, 0);
    agg.finish_flush(result.any_error, 1);

    assert_eq!(redis.calls.len(), 10);
    assert_eq!(agg.consecutive_failures(), 1);
    assert_eq!(agg.in_flight_uncredited(), 0);
}

#[test]
fn test_flush_best_effort_flushes_trailing_partial_after_error() {
    let config = BillingAggregatorConfig {
        per_flush_batch_size: 3,
        ..test_config()
    };
    let mut agg = AggregatorState::new(config);
    let mut redis = FakeRedis::failing_at(0);

    for team_id in 1..=3 {
        agg.record(team_id, FlagRequestType::Decide, Some(Library::PosthogJs), BUCKET);
    }
    agg.record(99, FlagRequestType::Decide, None, BUCKET);

    flush_once(&mut agg, &mut redis, FlushPolicy::BestEffort, 1);

    assert_eq!(redis.calls.len(), 7);
}

#[test]
fn test_shutdown_uses_best_effort_flush() {
    let config = BillingAggregatorConfig {
        flush_interval: Duration::from_secs(60),
        per_flush_batch_size: 2,
        ..test_config()
    };
    let mut agg = AggregatorState::new(config);
    let mut redis = FakeRedis::failing();

    record_n_decide_with_library(&mut agg, 5);

    let step = flusher_step(FlusherPhase::Ticking, FlusherEvent::ShutdownSignal);
    flush_once(&mut agg, &mut redis, step.flush.unwrap(), 1);

    assert_eq!(
        redis.calls.len(),
        10,
        "shutdown should attempt all chunks in best-effort mode"
    );
}

#[test]
fn test_flush_clears_in_flight_uncredited_on_success() {
    let mut agg = AggregatorState::new(test_config());
    let mut redis = FakeRedis::default();
    agg.record(1, FlagRequestType::Decide, None, BUCKET);
    flush_once(&mut agg, &mut redis, FlushPolicy::BailOnError, 1);
    assert_eq!(agg.in_flight_uncredited(), 0);
}

#[test]
fn test_flush_clears_in_flight_uncredited_on_error() {
    let mut agg = AggregatorState::new(test_config());
    let mut redis = FakeRedis::failing();
    agg.record(1, FlagRequestType::Decide, None, BUCKET);
    flush_once(&mut agg, &mut redis, FlushPolicy::BailOnError, 1);
    assert_eq!(agg.in_flight_uncredited(), 0);
}

#[test]
fn in_flight_shrinks_as_chunks_are_written() {
    let config = BillingAggregatorConfig {
        per_flush_batch_size: 1,
        ..test_config()
    };
    let mut agg = AggregatorState::new(config);
    let mut redis = FakeRedis::default();
    for _ in 0..3 {
        agg.record(1, FlagRequestType::Decide, None, BUCKET);
    }
    for _ in 0..4 {
        agg.record(2, FlagRequestType::Decide, None, BUCKET);
    }
    let mut run = agg.begin_flush(FlushPolicy::BailOnError, 1).unwrap();
    assert_eq!(agg.in_flight_uncredited(), 7);
    let chunk = run.next_chunk().unwrap();
    let first = chunk.commands[0].count as u64;
    let ok = redis.execute_pipeline(chunk.commands);
    let outcome = run.settle_chunk(ok);
    agg.credit_chunk(&run, outcome);
    assert_eq!(agg.in_flight_uncredited(), 7 - first);
    run_chunks(&mut agg, &mut run, &mut redis);
    assert_eq!(agg.in_flight_uncredited(), 0);
}

#[test]
fn test_empty_flush_does_no_work() {
    let mut agg = AggregatorState::new(test_config());
    let mut redis = FakeRedis::default();

    flush_once(&mut agg, &mut redis, FlushPolicy::BailOnError, 1);

    assert!(
        redis.calls.is_empty(),
        "flushing an empty map should make zero calls"
    );
    assert_eq!(redis.pipelines, 0);
}

#[test]
fn test_flush_preserves_distinct_buckets_per_key() {
    let mut agg = AggregatorState::new(test_config());
    let mut redis = FakeRedis::default();

    agg.set_pending(
        AggregationKey {
            team_id: 1,
            request_type: FlagRequestType::Decide,
            library: None,
            bucket: 100,
        },
        3,
    );
    agg.set_pending(
        AggregationKey {
            team_id: 1,
            request_type: FlagRequestType::Decide,
            library: None,
            bucket: 101,
        },
        5,
    );

    flush_once(&mut agg, &mut redis, FlushPolicy::BailOnError, 1);

    let team_key = get_team_request_key(1, FlagRequestType::Decide);
    let calls = redis.calls;
    let bucket_100_key = format!("{team_key}:100");
    let bucket_101_key = format!("{team_key}:101");
    assert!(
        calls.iter().any(|(k, v)| k == &bucket_100_key && *v == 3),
        "bucket 100 must produce HINCRBY count=3, got {:?}",
        calls
    );
    assert!(
        calls.iter().any(|(k, v)| k == &bucket_101_key && *v == 5),
        "bucket 101 must produce HINCRBY count=5, got {:?}",
        calls
    );
}

#[test]
fn test_flush_conserves_total_count() {
    let mut agg = AggregatorState::new(test_config());
    let mut redis = FakeRedis::default();

    let mut expected_total: i64 = 0;
    for team_id in 1..=10 {
        for _ in 0..(team_id as usize) {
            agg.record(team_id, FlagRequestType::Decide, None, BUCKET);
            expected_total += 1;
        }
    }

    flush_once(&mut agg, &mut redis, FlushPolicy::BailOnError, 1);

    let actual_total: i64 = redis.calls.iter().map(|(_, v)| *v).sum();
    assert_eq!(
        actual_total, expected_total,
        "sum of HINCRBYs must equal recorded request count"
    );
    assert_eq!(agg.pending_len(), 0, "pending must be drained on success");
    assert_eq!(
        agg.in_flight_uncredited(),
        0,
        "in-flight must be cleared on success"
    );
}

#[test]
fn counts_above_i64_max_are_clamped() {
    let mut agg = AggregatorState::new(test_config());
    let mut redis = FakeRedis::default();
    agg.set_pending(
        AggregationKey {
            team_id: 3,
            request_type: FlagRequestType::Decide,
            library: None,
            bucket: 1,
        },
        u64::MAX,
    );
    let mut run = agg.begin_flush(FlushPolicy::BailOnError, 1).unwrap();
    let chunk = run.next_chunk().unwrap();
    assert_eq!(chunk.clamped_entries, 1);
    assert_eq!(chunk.commands[0].count, i64::MAX);
    let ok = redis.execute_pipeline(chunk.commands);
    let outcome = run.settle_chunk(ok);
    agg.credit_chunk(&run, outcome);
    settle(&mut agg, run, 1);
    assert_eq!(redis.calls, vec![("posthog:decide_requests:3:1".to_string(), i64::MAX)]);
}

#[test]
fn test_shutdown_timeout_credits_residual_to_in_flight() {
    let mut agg = AggregatorState::new(test_config());
    for _ in 0..7 {
        agg.record(1, FlagRequestType::Decide, None, BUCKET);
    }
    // The flush drains and parks the count in flight before its first
    // Redis call; the call then never completes.
    let mut run = agg.begin_flush(FlushPolicy::BestEffort, 1).unwrap();
    let _chunk = run.next_chunk().unwrap();
    assert_eq!(
        agg.pending_len(),
        0,
        "pending must be drained into the in-flight flush before shutdown"
    );
    assert_eq!(
        agg.in_flight_uncredited(),
        7,
        "drained count must be parked in in_flight_uncredited so the timeout path can credit it as a drop"
    );
    assert_eq!(agg.shutdown_drops(), 7);
}

#[test]
fn test_record_during_in_flight_flush_lands_in_next_batch() {
    let mut agg = AggregatorState::new(test_config());
    let mut redis = FakeRedis::default();

    agg.record(1, FlagRequestType::Decide, None, BUCKET);

    let mut run = agg.begin_flush(FlushPolicy::BailOnError, 1).unwrap();
    agg.record(2, FlagRequestType::Decide, None, BUCKET);
    run_chunks(&mut agg, &mut run, &mut redis);
    settle(&mut agg, run, 1);

    assert_eq!(
        agg.pending_len(),
        1,
        "record(2) must land in the post-drain map and wait for next flush"
    );
    let calls = redis.calls;
    assert_eq!(
        calls.len(),
        1,
        "only the in-flight chunk (record(1)) should have flushed, got {calls:?}"
    );
    assert_eq!(calls[0].1, 1, "the flushed HINCRBY count must be 1");
}

#[test]
fn test_empty_drain_stamps_last_successful_epoch() {
    let mut agg = AggregatorState::new(test_config());
    let mut redis = FakeRedis::default();

    flush_once(&mut agg, &mut redis, FlushPolicy::BailOnError, 1_700_000_000_123);

    assert_eq!(agg.last_successful_flush_epoch_ms(), 1_700_000_000_123);
}

#[test]
fn test_successful_flush_stamps_last_successful_epoch() {
    let mut agg = AggregatorState::new(test_config());
    let mut redis = FakeRedis::default();
    assert_eq!(
        agg.last_successful_flush_epoch_ms(),
        0,
        "no flush yet → epoch stays zero"
    );

    agg.record(1, FlagRequestType::Decide, None, BUCKET);
    flush_once(&mut agg, &mut redis, FlushPolicy::BailOnError, 1_700_000_000_456);

    assert_eq!(agg.last_successful_flush_epoch_ms(), 1_700_000_000_456);
}

#[test]
fn test_failed_flush_does_not_overwrite_prior_successful_epoch() {
    let mut agg = AggregatorState::new(test_config());
    let mut redis = FakeRedis::failing_at(1);

    agg.record(1, FlagRequestType::Decide, None, BUCKET);
    flush_once(&mut agg, &mut redis, FlushPolicy::BailOnError, 1_000);
    let primed = agg.last_successful_flush_epoch_ms();
    assert!(primed > 0, "priming flush must stamp the epoch");

    agg.record(2, FlagRequestType::Decide, None, BUCKET);
    flush_once(&mut agg, &mut redis, FlushPolicy::BailOnError, 2_000);

    assert_eq!(
        agg.last_successful_flush_epoch_ms(),
        primed,
        "failed flush must not disturb the prior success stamp",
    );
}

#[test]
fn test_best_effort_partial_success_does_not_stamp_epoch() {
    let config = BillingAggregatorConfig {
        per_flush_batch_size: 2,
        ..test_config()
    };
    let mut agg = AggregatorState::new(config);
    let mut redis = FakeRedis::failing_at(1);

    record_n_decide_with_library(&mut agg, 5);
    flush_once(&mut agg, &mut redis, FlushPolicy::BestEffort, 1_000);

    assert_eq!(
        agg.last_successful_flush_epoch_ms(),
        0,
        "partial-success flush must not stamp the epoch"
    );
}

#[test]
fn next_chunk_is_none_after_bail() {
    let config = BillingAggregatorConfig {
        per_flush_batch_size: 1,
        ..test_config()
    };
    let mut agg = AggregatorState::new(config);
    agg.record(1, FlagRequestType::Decide, None, BUCKET);
    agg.record(2, FlagRequestType::Decide, None, BUCKET);
    let mut run = agg.begin_flush(FlushPolicy::BailOnError, 1).unwrap();
    assert!(run.next_chunk().is_some());
    assert_eq!(run.settle_chunk(false), ChunkOutcome::FailedBail);
    assert!(run.next_chunk().is_none());
    let result = run.finish();
    assert_eq!(result.requeue.len(), 2);
    assert!(result.any_error);
    assert_eq!(result.dropped_counts, 0);
}

#[test]
fn best_effort_failed_chunk_reports_failed() {
    let mut agg = AggregatorState::new(test_config());
    agg.record(1, FlagRequestType::Decide, None, BUCKET);
    let mut run = agg.begin_flush(FlushPolicy::BestEffort, 1).unwrap();
    assert!(run.next_chunk().is_some());
    assert_eq!(run.settle_chunk(false), ChunkOutcome::Failed);
    assert!(run.next_chunk().is_none());
    let result = run.finish();
    assert!(result.requeue.is_empty());
    assert_eq!(result.dropped_counts, 1);
}
