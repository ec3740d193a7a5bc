//! Per-process aggregation of billable feature-flag requests.
//!
//! Requests are counted in memory under an [`key::AggregationKey`] and
//! flushed periodically as batches of Redis `HINCRBY` commands. This crate
//! holds the verified decision logic: the pending-count map with its cap,
//! the chunked flush with its retry/drop accounting, the configuration
//! checks, and the Redis key layout. The async runtime, the Redis
//! connection, clocks and metric emission stay outside of it.

pub mod request;
pub mod key;
pub mod duration;
pub mod config;
pub mod counts;
pub mod pending;
pub mod flush;
pub mod state;
pub mod jitter;
pub mod flusher;
pub mod laws;

pub use config::BillingAggregatorConfig;
pub use flusher::{flusher_step, shutdown_reports_drops, FlusherEvent, FlusherExit, FlusherPhase, FlusherStep};
pub use flush::{ChunkOutcome, FlushPolicy, FlushResult, FlushRun, IncrementCommand};
pub use key::AggregationKey;
pub use pending::{PendingCounts, RecordOutcome};
pub use request::{
    get_team_request_key, get_team_request_library_key, record_labels_for, FlagRequestType,
    Library,
};
pub use state::{staleness_millis, AggregatorState, MetricsSnapshot};
