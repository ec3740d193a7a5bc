use billing_aggregator::jitter::{max_jitter_ms, pick_jitter, MAX_JITTER_MS};
use billing_aggregator::{
    flusher_step, shutdown_reports_drops, staleness_millis, FlushPolicy, FlusherEvent,
    FlusherExit, FlusherPhase,
};
use std::time::Duration;

fn staleness_seconds(last_ms: u64, now_ms: u64) -> f64 {
    staleness_millis(last_ms, now_ms) as f64 / 1000.0
}

#[test]
fn test_staleness_is_zero_before_first_flush() {
    assert_eq!(staleness_seconds(0, 1_700_000_000_000), 0.0);
    assert_eq!(staleness_seconds(0, 0), 0.0);
}

#[test]
fn test_staleness_reports_seconds_since_last_flush() {
    assert_eq!(
        staleness_seconds(1_700_000_000_000, 1_700_000_005_500),
        5.5,
    );
    assert_eq!(
        staleness_seconds(1_700_000_000_000, 1_700_000_000_001),
        0.001,
    );
}

#[test]
fn test_staleness_saturates_on_backward_clock_skew() {
    assert_eq!(
        staleness_seconds(1_700_000_005_000, 1_700_000_000_000),
        0.0,
    );
}

#[test]
fn jitter_bound_is_a_tenth_of_the_interval_clamped() {
    assert_eq!(max_jitter_ms(&Duration::from_secs(10)), 1_000);
    assert_eq!(max_jitter_ms(&Duration::from_secs(60)), MAX_JITTER_MS);
    assert_eq!(max_jitter_ms(&Duration::from_millis(50)), 5);
    assert_eq!(max_jitter_ms(&Duration::from_millis(5)), 1);
    assert_eq!(max_jitter_ms(&Duration::ZERO), 1);
}

#[test]
fn picked_jitter_stays_below_the_bound() {
    for _ in 0..200 {
        let j = pick_jitter(Duration::from_millis(50));
        assert!(j < Duration::from_millis(5));
        assert_eq!(j.subsec_nanos() % 1_000_000, 0);
    }
    assert_eq!(pick_jitter(Duration::from_millis(5)), Duration::ZERO);
}

#[test]
fn flusher_ticks_bail_and_shutdown_is_best_effort() {
    let step = flusher_step(FlusherPhase::AwaitingJitter, FlusherEvent::JitterElapsed);
    assert_eq!(step.next, FlusherPhase::Ticking);
    assert_eq!(step.flush, None);

    let step = flusher_step(FlusherPhase::Ticking, FlusherEvent::Tick);
    assert_eq!(step.next, FlusherPhase::Ticking);
    assert_eq!(step.flush, Some(FlushPolicy::BailOnError));

    let step = flusher_step(FlusherPhase::Ticking, FlusherEvent::ShutdownSignal);
    assert_eq!(step.next, FlusherPhase::Stopped);
    assert_eq!(step.flush, Some(FlushPolicy::BestEffort));

    // A quick shutdown during the jitter still flushes.
    let step = flusher_step(FlusherPhase::AwaitingJitter, FlusherEvent::ShutdownSignal);
    assert_eq!(step.next, FlusherPhase::Stopped);
    assert_eq!(step.flush, Some(FlushPolicy::BestEffort));

    let step = flusher_step(FlusherPhase::Stopped, FlusherEvent::Tick);
    assert_eq!(step.next, FlusherPhase::Stopped);
    assert_eq!(step.flush, None);
}

#[test]
fn shutdown_reports_drops_unless_flush_completed() {
    assert!(!shutdown_reports_drops(FlusherExit::Completed));
    assert!(shutdown_reports_drops(FlusherExit::Panicked));
    assert!(shutdown_reports_drops(FlusherExit::TimedOut));
}
