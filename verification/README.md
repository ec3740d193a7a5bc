# billing_aggregator

In-process aggregation of billable feature-flag requests, flushed to Redis
as pipelined `HINCRBY` commands, with its decision logic verified in Verus.

- `src/` — the verified library:
  - `request.rs` — request types, SDK libraries, and the Redis key layout.
  - `key.rs` — `AggregationKey` and its exact packing into a `u128`, so the
    pending map can be an integer-keyed `HashMap`.
  - `duration.rs` — what the library relies on of `std::time::Duration`.
  - `config.rs` — `BillingAggregatorConfig` and `validate`.
  - `counts.rs` — count sums and saturating arithmetic.
  - `pending.rs` — the pending-count map: capped recording, merging, draining.
  - `flush.rs` — one flush as a state machine: chunking, and the fate of
    every drained entry (flushed, dropped, or re-queued).
  - `state.rs` — the shared aggregator state and its critical sections.
  - `flusher.rs` — the flusher task's decisions, one event at a time.
  - `jitter.rs` — start-up jitter of the flusher.
  - `laws.rs` — properties that span several operations.
- `app/` — the runtime around it: tokio tasks, the Redis client interface,
  clocks and metric emission.
- `tests/` — tests of the library, including flushes driven against a
  scripted stand-in for Redis.

Verify with Verus on `src/lib.rs`; the tests run with `cargo test`.
