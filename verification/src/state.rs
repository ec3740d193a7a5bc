//! The aggregator's shared state and the steps that record requests and
//! flush them. Each step is one short critical section: the caller holds
//! the lock for the duration of one call and releases it around Redis I/O.

use vstd::prelude::*;
use crate::config::BillingAggregatorConfig;
use crate::counts::{saturate, map_total, enumerates, coded, wrapped_add, wrapped_sub, lemma_map_total, lemma_coded_total};
use crate::flush::{FlushPolicy, FlushRun, ChunkOutcome};
use crate::key::{AggregationKey, key_code};
use crate::pending::{PendingCounts, RecordOutcome, recorded, record_outcome, merge_maps};
use crate::request::{FlagRequestType, Library};

verus! {

/// The key under which `record` counts a request.
pub open spec fn record_key(
    team_id: i32,
    request_type: FlagRequestType,
    library: Option<Library>,
    bucket: u64,
) -> AggregationKey {
    AggregationKey { team_id, request_type, library, bucket }
}

/// Values sampled for the live gauges.
#[derive(Debug, Clone, Copy, PartialEq, Eq, Structural)]
pub struct MetricsSnapshot {
    /// Distinct keys waiting for the next flush.
    pub pending_entries: usize,
    /// Saturating sum of their counts.
    pub pending_counts: u64,
    /// Counts drained by a flush and not yet credited anywhere.
    pub in_flight_uncredited: u64,
    /// Unix time (ms) of the last successful flush; zero before the first.
    pub last_successful_flush_epoch_ms: u64,
}

/// Milliseconds since the last successful flush: zero when there has been
/// none yet (`last_ms == 0`), and zero when the clock stepped backwards.
pub open spec fn staleness_ms(last_ms: u64, now_ms: u64) -> u64 {
    if last_ms == 0 || now_ms < last_ms {
        0
    } else {
        (now_ms - last_ms) as u64
    }
}

pub fn staleness_millis(last_ms: u64, now_ms: u64) -> (ms: u64)
    ensures
        ms == staleness_ms(last_ms, now_ms),
{
    if last_ms == 0 {
        0
    } else {
        now_ms.saturating_sub(last_ms)
    }
}

/// In-process counter aggregation for billable flag requests.
pub struct AggregatorState {
    config: BillingAggregatorConfig,
    pending: PendingCounts,
    consecutive_failures: u64,
    in_flight_uncredited: u64,
    last_successful_flush_epoch_ms: u64,
    record_count_decide: u64,
    record_count_flag_definitions: u64,
}

impl AggregatorState {
    pub closed spec fn spec_config(&self) -> BillingAggregatorConfig {
        self.config
    }

    /// Counts recorded since the last drain, by packed key.
    pub closed spec fn spec_pending(&self) -> Map<u128, u64> {
        self.pending@
    }

    /// Flushes in a row that hit an error.
    pub closed spec fn spec_consecutive_failures(&self) -> u64 {
        self.consecutive_failures
    }

    /// Counts drained from `pending` but not yet credited as flushed,
    /// dropped or re-queued. Non-zero only while a flush is under way.
    pub closed spec fn spec_in_flight(&self) -> u64 {
        self.in_flight_uncredited
    }

    /// Unix time (ms) of the last successful flush; zero before the first.
    pub closed spec fn spec_last_success_ms(&self) -> u64 {
        self.last_successful_flush_epoch_ms
    }

    /// `Decide` requests recorded since the last flush began.
    pub closed spec fn spec_decide_records(&self) -> u64 {
        self.record_count_decide
    }

    /// `FlagDefinitions` requests recorded since the last flush began.
    pub closed spec fn spec_flag_definitions_records(&self) -> u64 {
        self.record_count_flag_definitions
    }

    pub closed spec fn wf(&self) -> bool {
        self.pending.wf()
    }

    /// Everything but the pending map is as in `other`.
    pub open spec fn same_except_pending(&self, other: &AggregatorState) -> bool {
        &&& self.spec_config() == other.spec_config()
        &&& self.spec_consecutive_failures() == other.spec_consecutive_failures()
        &&& self.spec_in_flight() == other.spec_in_flight()
        &&& self.spec_last_success_ms() == other.spec_last_success_ms()
        &&& self.spec_decide_records() == other.spec_decide_records()
        &&& self.spec_flag_definitions_records() == other.spec_flag_definitions_records()
    }

    pub fn new(config: BillingAggregatorConfig) -> (s: AggregatorState)
        ensures
            s.wf(),
            s.spec_config() == config,
            s.spec_pending() == Map::<u128, u64>::empty(),
            s.spec_consecutive_failures() == 0,
            s.spec_in_flight() == 0,
            s.spec_last_success_ms() == 0,
            s.spec_decide_records() == 0,
            s.spec_flag_definitions_records() == 0,
    {
        AggregatorState {
            config,
            pending: PendingCounts::new(),
            consecutive_failures: 0,
            in_flight_uncredited: 0,
            last_successful_flush_epoch_ms: 0,
            record_count_decide: 0,
            record_count_flag_definitions: 0,
        }
    }

    pub fn config(&self) -> (c: &BillingAggregatorConfig)
        ensures
            *c == self.spec_config(),
    {
        &self.config
    }

    /// Records a single billable request in the time bucket `bucket`.
    ///
    /// The per-type request counter goes up by one (wrapping, as an atomic
    /// counter does). The request is then counted under its key unless the
    /// key is new and the map already holds `max_pending_entries` keys;
    /// an existing key's count saturates at `u64::MAX`.
    pub fn record(
        &mut self,
        team_id: i32,
        request_type: FlagRequestType,
        library: Option<Library>,
        bucket: u64,
    ) -> (o: RecordOutcome)
        requires
            old(self).wf(),
        ensures
            final(self).wf(),
            final(self).spec_pending() == recorded(
                old(self).spec_pending(),
                key_code(record_key(team_id, request_type, library, bucket)),
                old(self).spec_config().max_pending_entries as int,
            ),
            o == record_outcome(
                old(self).spec_pending(),
                key_code(record_key(team_id, request_type, library, bucket)),
                old(self).spec_config().max_pending_entries as int,
            ),
            final(self).spec_decide_records() == if request_type == FlagRequestType::Decide {
                wrapped_add(old(self).spec_decide_records(), 1)
            } else {
                old(self).spec_decide_records()
            },
            final(self).spec_flag_definitions_records() == if request_type
                == FlagRequestType::FlagDefinitions {
                wrapped_add(old(self).spec_flag_definitions_records(), 1)
            } else {
                old(self).spec_flag_definitions_records()
            },
            final(self).spec_config() == old(self).spec_config(),
            final(self).spec_consecutive_failures() == old(self).spec_consecutive_failures(),
            final(self).spec_in_flight() == old(self).spec_in_flight(),
            final(self).spec_last_success_ms() == old(self).spec_last_success_ms(),
    {
        match request_type {
            FlagRequestType::Decide => {
                self.record_count_decide = self.record_count_decide.wrapping_add(1);
            },
            FlagRequestType::FlagDefinitions => {
                self.record_count_flag_definitions = self.record_count_flag_definitions.wrapping_add(
                    1,
                );
            },
        }
        let key = AggregationKey { team_id, request_type, library, bucket };
        self.pending.record(key, self.config.max_pending_entries)
    }

    /// Number of distinct keys waiting for the next flush.
    pub fn pending_len(&self) -> (n: usize)
        ensures
            n == self.spec_pending().len(),
    {
        self.pending.len()
    }

    /// The count waiting under `key`, if any.
    pub fn pending_count(&self, key: &AggregationKey) -> (r: Option<u64>)
        ensures
            r == (if self.spec_pending().contains_key(key_code(*key)) {
                Some(self.spec_pending()[key_code(*key)])
            } else {
                None
            }),
    {
        self.pending.get(key)
    }

    /// The entries waiting for the next flush, in the map's order.
    pub fn pending_entries(&self) -> (v: Vec<(AggregationKey, u64)>)
        requires
            self.wf(),
        ensures
            enumerates(self.spec_pending(), coded(v@)),
    {
        self.pending.entries()
    }

    /// Sets the count of `key` directly, bypassing the cap.
    pub fn set_pending(&mut self, key: AggregationKey, count: u64)
        requires
            old(self).wf(),
        ensures
            final(self).wf(),
            final(self).spec_pending() == old(self).spec_pending().insert(key_code(key), count),
            final(self).same_except_pending(old(self)),
    {
        self.pending.insert(key, count);
    }

    pub fn in_flight_uncredited(&self) -> (n: u64)
        ensures
            n == self.spec_in_flight(),
    {
        self.in_flight_uncredited
    }

    pub fn consecutive_failures(&self) -> (n: u64)
        ensures
            n == self.spec_consecutive_failures(),
    {
        self.consecutive_failures
    }

    pub fn last_successful_flush_epoch_ms(&self) -> (ms: u64)
        ensures
            ms == self.spec_last_success_ms(),
    {
        self.last_successful_flush_epoch_ms
    }

    /// Takes the per-type request counters (`Decide`, `FlagDefinitions`)
    /// for emission, resetting both to zero.
    pub fn take_record_counts(&mut self) -> (counts: (u64, u64))
        requires
            old(self).wf(),
        ensures
            final(self).wf(),
            counts == (old(self).spec_decide_records(), old(self).spec_flag_definitions_records()),
            final(self).spec_decide_records() == 0,
            final(self).spec_flag_definitions_records() == 0,
            final(self).spec_pending() == old(self).spec_pending(),
            final(self).spec_config() == old(self).spec_config(),
            final(self).spec_consecutive_failures() == old(self).spec_consecutive_failures(),
            final(self).spec_in_flight() == old(self).spec_in_flight(),
            final(self).spec_last_success_ms() == old(self).spec_last_success_ms(),
    {
        let counts = (self.record_count_decide, self.record_count_flag_definitions);
        self.record_count_decide = 0;
        self.record_count_flag_definitions = 0;
        counts
    }

    /// Drains the pending map to start a flush.
    ///
    /// An empty drain does no work: it resets the failure counter and
    /// stamps `now_ms` as the last successful flush, since a tick with
    /// nothing to flush still shows the flusher is alive. Otherwise the
    /// drained entries become a flush run, and their total is published as
    /// in flight before any Redis call.
    pub fn begin_flush(&mut self, policy: FlushPolicy, now_ms: u64) -> (run: Option<FlushRun>)
        requires
            old(self).wf(),
        ensures
            final(self).wf(),
            final(self).spec_pending() == Map::<u128, u64>::empty(),
            final(self).spec_config() == old(self).spec_config(),
            final(self).spec_decide_records() == old(self).spec_decide_records(),
            final(self).spec_flag_definitions_records() == old(self).spec_flag_definitions_records(),
            run is None <==> old(self).spec_pending().len() == 0,
            run is None ==> {
                &&& final(self).spec_consecutive_failures() == 0
                &&& final(self).spec_last_success_ms() == now_ms
                &&& final(self).spec_in_flight() == old(self).spec_in_flight()
            },
            run matches Some(r) ==> {
                &&& r.wf()
                &&& r.idle()
                &&& r.spec_done() == 0
                &&& !r.spec_any_error()
                &&& !r.spec_bailed()
                &&& r.spec_policy() == policy
                &&& r.spec_batch_size() == if old(self).spec_config().per_flush_batch_size == 0 {
                    1
                } else {
                    old(self).spec_config().per_flush_batch_size as int
                }
                &&& enumerates(old(self).spec_pending(), coded(r.spec_entries()))
                &&& r.spec_total_counts() == saturate(map_total(old(self).spec_pending()) as int)
                &&& final(self).spec_in_flight() == r.spec_total_counts()
                &&& final(self).spec_consecutive_failures() == old(self).spec_consecutive_failures()
                &&& final(self).spec_last_success_ms() == old(self).spec_last_success_ms()
            },
    {
        let drained = self.pending.take();
        if drained.is_empty() {
            self.consecutive_failures = 0;
            self.last_successful_flush_epoch_ms = now_ms;
            return None;
        }
        let entries = drained.entries();
        proof {
            lemma_map_total(drained@, coded(entries@));
            lemma_coded_total(entries@);
        }
        let run = FlushRun::new(entries, policy, self.config.per_flush_batch_size);
        self.in_flight_uncredited = run.total_counts();
        Some(run)
    }

    /// Accounts for a settled chunk: after a written chunk, what is still
    /// in flight is the drained total less what has been written.
    pub fn credit_chunk(&mut self, run: &FlushRun, outcome: ChunkOutcome)
        requires
            old(self).wf(),
        ensures
            final(self).wf(),
            final(self).spec_in_flight() == if outcome == ChunkOutcome::Written {
                saturate(run.spec_total_counts() - run.spec_flushed_counts())
            } else {
                old(self).spec_in_flight()
            },
            final(self).spec_pending() == old(self).spec_pending(),
            final(self).spec_config() == old(self).spec_config(),
            final(self).spec_consecutive_failures() == old(self).spec_consecutive_failures(),
            final(self).spec_last_success_ms() == old(self).spec_last_success_ms(),
            final(self).spec_decide_records() == old(self).spec_decide_records(),
            final(self).spec_flag_definitions_records() == old(self).spec_flag_definitions_records(),
    {
        if outcome == ChunkOutcome::Written {
            self.in_flight_uncredited = run.total_counts().saturating_sub(run.flushed_counts());
        }
    }

    /// First step of a re-queue: the re-queued counts stop being in
    /// flight (before they are back in `pending`, so an interruption
    /// under-counts rather than double-counts), and the records that
    /// arrived during the flush are taken out to merge into.
    pub fn take_pending_for_requeue(&mut self, requeued_counts: u64) -> (fresh: PendingCounts)
        requires
            old(self).wf(),
        ensures
            final(self).wf(),
            fresh.wf(),
            fresh@ == old(self).spec_pending(),
            final(self).spec_pending() == Map::<u128, u64>::empty(),
            final(self).spec_in_flight() == wrapped_sub(old(self).spec_in_flight(), requeued_counts),
            final(self).spec_config() == old(self).spec_config(),
            final(self).spec_consecutive_failures() == old(self).spec_consecutive_failures(),
            final(self).spec_last_success_ms() == old(self).spec_last_success_ms(),
            final(self).spec_decide_records() == old(self).spec_decide_records(),
            final(self).spec_flag_definitions_records() == old(self).spec_flag_definitions_records(),
    {
        self.in_flight_uncredited = self.in_flight_uncredited.wrapping_sub(requeued_counts);
        self.pending.take()
    }

    /// Last step of a re-queue: `merged` becomes the pending map, with the
    /// records that arrived meanwhile added in.
    pub fn restore_pending(&mut self, merged: PendingCounts)
        requires
            old(self).wf(),
            merged.wf(),
        ensures
            final(self).wf(),
            final(self).spec_pending() == merge_maps(merged@, old(self).spec_pending()),
            final(self).same_except_pending(old(self)),
    {
        let mut merged = merged;
        let arrived = self.pending.take();
        merged.absorb(arrived);
        self.pending = merged;
    }

    /// Closes a flush. A flush with any failed chunk bumps the failure
    /// counter (wrapping, as an atomic counter does) and leaves the
    /// last-success stamp alone; an error-free flush resets the counter and
    /// stamps `now_ms`. Nothing is in flight afterwards. Returns the new
    /// failure count.
    pub fn finish_flush(&mut self, any_error: bool, now_ms: u64) -> (failures: u64)
        requires
            old(self).wf(),
        ensures
            final(self).wf(),
            failures == final(self).spec_consecutive_failures(),
            any_error ==> {
                &&& final(self).spec_consecutive_failures() == wrapped_add(
                    old(self).spec_consecutive_failures(),
                    1,
                )
                &&& final(self).spec_last_success_ms() == old(self).spec_last_success_ms()
            },
            !any_error ==> {
                &&& final(self).spec_consecutive_failures() == 0
                &&& final(self).spec_last_success_ms() == now_ms
            },
            final(self).spec_in_flight() == 0,
            final(self).spec_pending() == old(self).spec_pending(),
            final(self).spec_config() == old(self).spec_config(),
            final(self).spec_decide_records() == old(self).spec_decide_records(),
            final(self).spec_flag_definitions_records() == old(self).spec_flag_definitions_records(),
    {
        if any_error {
            self.consecutive_failures = self.consecutive_failures.wrapping_add(1);
        } else {
            self.consecutive_failures = 0;
            self.last_successful_flush_epoch_ms = now_ms;
        }
        self.in_flight_uncredited = 0;
        self.consecutive_failures
    }

    /// Counts lost at shutdown: what is still pending plus what an
    /// interrupted flush had in flight (saturating).
    pub fn shutdown_drops(&self) -> (total: u64)
        requires
            self.wf(),
        ensures
            total == saturate(map_total(self.spec_pending()) + self.spec_in_flight()),
    {
        let remaining = self.pending.total();
        remaining.saturating_add(self.in_flight_uncredited)
    }

    /// The values behind the live gauges, read in one critical section.
    pub fn metrics_snapshot(&self) -> (m: MetricsSnapshot)
        requires
            self.wf(),
        ensures
            m.pending_entries == self.spec_pending().len(),
            m.pending_counts == saturate(map_total(self.spec_pending()) as int),
            m.in_flight_uncredited == self.spec_in_flight(),
            m.last_successful_flush_epoch_ms == self.spec_last_success_ms(),
    {
        MetricsSnapshot {
            pending_entries: self.pending.len(),
            pending_counts: self.pending.total(),
            in_flight_uncredited: self.in_flight_uncredited,
            last_successful_flush_epoch_ms: self.last_successful_flush_epoch_ms,
        }
    }
}

} // verus!
