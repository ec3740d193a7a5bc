//! Knobs of the aggregator and their validation.

use vstd::prelude::*;
use vstd::string::*;
use std::time::Duration;
use crate::duration::{duration_nanos, duration_is_zero, duration_from_secs};

verus! {

#[derive(Debug, Clone, Copy)]
pub struct BillingAggregatorConfig {
    /// Interval between flushes. Must be non-zero — see `validate`.
    pub flush_interval: Duration,
    /// Safety tripwire — expected steady-state size is orders of magnitude
    /// smaller. Must be non-zero — see `validate`.
    pub max_pending_entries: usize,
    /// Must be non-zero — see `validate`.
    pub per_flush_batch_size: usize,
    /// Must be non-zero — see `validate`.
    pub shutdown_flush_timeout: Duration,
}

/// The message `validate` returns for the first knob that is zero, in the
/// order the knobs are checked; `None` when every knob is non-zero.
pub open spec fn config_error(c: BillingAggregatorConfig) -> Option<Seq<char>> {
    if duration_nanos(c.flush_interval) == 0 {
        Some("flush_interval must be > 0 (tokio::time::interval panics on zero)"@)
    } else if c.max_pending_entries == 0 {
        Some("max_pending_entries must be > 0 (zero caps every new key immediately)"@)
    } else if c.per_flush_batch_size == 0 {
        Some("per_flush_batch_size must be > 0"@)
    } else if duration_nanos(c.shutdown_flush_timeout) == 0 {
        Some(
            "shutdown_flush_timeout must be > 0 (zero loses every pending count on shutdown)"@,
        )
    } else {
        None
    }
}

impl Default for BillingAggregatorConfig {
    fn default() -> (c: Self)
        ensures
            duration_nanos(c.flush_interval) == 10_000_000_000,
            c.max_pending_entries == 500_000,
            c.per_flush_batch_size == 200,
            duration_nanos(c.shutdown_flush_timeout) == 15_000_000_000,
    {
        BillingAggregatorConfig {
            flush_interval: duration_from_secs(10),
            max_pending_entries: 500_000,
            per_flush_batch_size: 200,
            shutdown_flush_timeout: duration_from_secs(15),
        }
    }
}

impl BillingAggregatorConfig {
    /// Reject zero/degenerate knob values that would break the flusher or
    /// silently disable billing: a misconfigured deploy fails loudly at boot
    /// instead of crashing the flusher task minutes later.
    pub fn validate(&self) -> (r: Result<(), String>)
        ensures
            r is Ok <==> config_error(*self) is None,
            r matches Err(e) ==> config_error(*self) == Some(e@),
    {
        if duration_is_zero(&self.flush_interval) {
            return Err(
                String::from_str("flush_interval must be > 0 (tokio::time::interval panics on zero)"),
            );
        }
        if self.max_pending_entries == 0 {
            return Err(
                String::from_str(
                    "max_pending_entries must be > 0 (zero caps every new key immediately)",
                ),
            );
        }
        if self.per_flush_batch_size == 0 {
            return Err(String::from_str("per_flush_batch_size must be > 0"));
        }
        if duration_is_zero(&self.shutdown_flush_timeout) {
            return Err(
                String::from_str(
                    "shutdown_flush_timeout must be > 0 (zero loses every pending count on shutdown)",
                ),
            );
        }
        Ok(())
    }
}

} // verus!
