use billing_aggregator::BillingAggregatorConfig;
use std::time::Duration;

fn test_config() -> BillingAggregatorConfig {
    BillingAggregatorConfig {
        flush_interval: Duration::from_millis(50),
        max_pending_entries: 10_000,
        per_flush_batch_size: 200,
        shutdown_flush_timeout: Duration::from_secs(1),
    }
}

#[test]
fn test_config_validate_rejects_zero_flush_interval() {
    let config = BillingAggregatorConfig {
        flush_interval: Duration::ZERO,
        ..test_config()
    };
    let err = config.validate().unwrap_err();
    assert!(
        err.contains("flush_interval"),
        "error should name the bad knob, got: {err}"
    );
}

#[test]
fn test_config_validate_rejects_zero_max_pending_entries() {
    let config = BillingAggregatorConfig {
        max_pending_entries: 0,
        ..test_config()
    };
    let err = config.validate().unwrap_err();
    assert!(err.contains("max_pending_entries"), "got: {err}");
}

#[test]
fn test_config_validate_rejects_zero_per_flush_batch_size() {
    let config = BillingAggregatorConfig {
        per_flush_batch_size: 0,
        ..test_config()
    };
    let err = config.validate().unwrap_err();
    assert!(err.contains("per_flush_batch_size"), "got: {err}");
}

#[test]
fn test_config_validate_rejects_zero_shutdown_flush_timeout() {
    let config = BillingAggregatorConfig {
        shutdown_flush_timeout: Duration::ZERO,
        ..test_config()
    };
    let err = config.validate().unwrap_err();
    assert!(err.contains("shutdown_flush_timeout"), "got: {err}");
}

#[test]
fn test_config_validate_accepts_default() {
    assert!(BillingAggregatorConfig::default().validate().is_ok());
}

#[test]
fn default_config_values() {
    let config = BillingAggregatorConfig::default();
    assert_eq!(config.flush_interval, Duration::from_secs(10));
    assert_eq!(config.max_pending_entries, 500_000);
    assert_eq!(config.per_flush_batch_size, 200);
    assert_eq!(config.shutdown_flush_timeout, Duration::from_secs(15));
}

#[test]
fn validate_reports_first_bad_knob_in_order() {
    // Every knob is zero: the flush interval is checked first.
    let config = BillingAggregatorConfig {
        flush_interval: Duration::ZERO,
        max_pending_entries: 0,
        per_flush_batch_size: 0,
        shutdown_flush_timeout: Duration::ZERO,
    };
    assert_eq!(
        config.validate().unwrap_err(),
        "flush_interval must be > 0 (tokio::time::interval panics on zero)"
    );
    let config = BillingAggregatorConfig {
        flush_interval: Duration::from_millis(1),
        ..config
    };
    assert_eq!(
        config.validate().unwrap_err(),
        "max_pending_entries must be > 0 (zero caps every new key immediately)"
    );
}

#[test]
fn validate_accepts_sub_millisecond_durations() {
    // A nanosecond is not zero, even though it is zero whole milliseconds.
    let config = BillingAggregatorConfig {
        flush_interval: Duration::from_nanos(1),
        shutdown_flush_timeout: Duration::from_nanos(1),
        ..test_config()
    };
    assert!(config.validate().is_ok());
}
