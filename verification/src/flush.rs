//! One flush of the drained pending map, as a state machine.
//!
//! The drained entries are cut into chunks of Redis `HINCRBY` commands.
//! The caller asks for the next chunk, runs it against Redis, and reports
//! whether it succeeded; the run decides what happens to the chunk's
//! entries and whether to go on. Every drained entry ends up exactly once
//! as flushed, dropped (best-effort mode) or re-queued (bail mode).

use vstd::prelude::*;
use crate::key::AggregationKey;
use crate::request::{
    decimal_digits, team_request_key_spec, team_request_library_key_spec,
    get_team_request_key, get_team_request_library_key, u64_to_decimal,
};
use crate::counts::{saturate, seq_total, lemma_seq_total_push, lemma_seq_total_split, lemma_seq_total_append};
use crate::pending::{distinct_keys, saturating_sum};

verus! {

/// Policy for handling a chunk error during a flush. The normal tick uses
/// `BailOnError` (if Redis is rejecting, save round trips and retry next
/// interval). The shutdown path uses `BestEffort`: it is the last chance to
/// land writes, so trailing chunks are not abandoned over one failure.
#[derive(Debug, Clone, Copy, PartialEq, Eq, Structural)]
pub enum FlushPolicy {
    BailOnError,
    BestEffort,
}

/// Outcome of one chunk. `FailedBail` tells the caller that the flush stops
/// attempting further chunks.
#[derive(Debug, Clone, Copy, PartialEq, Eq, Structural)]
pub enum ChunkOutcome {
    Written,
    Failed,
    FailedBail,
}

/// What became of a drained entry.
#[derive(Debug, Clone, Copy, PartialEq, Eq, Structural)]
pub enum EntryFate {
    /// Its chunk was written to Redis.
    Flushed,
    /// Its chunk failed in best-effort mode: the count is lost.
    Dropped,
    /// Its chunk failed, or was never attempted, in bail mode: the entry
    /// goes back into the pending map.
    Requeued,
}

/// A Redis `HINCRBY key field count`.
pub struct IncrementCommand {
    pub key: String,
    pub field: String,
    pub count: i64,
}

impl View for IncrementCommand {
    type V = (Seq<char>, Seq<char>, i64);

    open spec fn view(&self) -> (Seq<char>, Seq<char>, i64) {
        (self.key@, self.field@, self.count)
    }
}

/// A drained count as written to Redis: clamped to `i64::MAX`.
pub open spec fn clamp_count(count: u64) -> i64 {
    if count > i64::MAX {
        i64::MAX
    } else {
        count as i64
    }
}

/// The commands of one entry: the per-library hash first (when the
/// request named a library), then the per-team hash, both incremented in
/// the field of the entry's time bucket.
pub open spec fn entry_commands(e: (AggregationKey, u64)) -> Seq<(Seq<char>, Seq<char>, i64)> {
    let field = decimal_digits(e.0.bucket as nat);
    let count = clamp_count(e.1);
    let team = (team_request_key_spec(e.0.team_id, e.0.request_type), field, count);
    match e.0.library {
        Some(library) => seq![
            (team_request_library_key_spec(e.0.team_id, e.0.request_type, library), field, count),
            team,
        ],
        None => seq![team],
    }
}

/// The commands of a run of entries, in order.
pub open spec fn commands_for(s: Seq<(AggregationKey, u64)>) -> Seq<(Seq<char>, Seq<char>, i64)>
    decreases s.len(),
{
    if s.len() == 0 {
        Seq::empty()
    } else {
        commands_for(s.drop_last()) + entry_commands(s.last())
    }
}

/// Number of entries of `s` whose count exceeds `i64::MAX` and is clamped.
pub open spec fn clamped_entries(s: Seq<(AggregationKey, u64)>) -> nat
    decreases s.len(),
{
    if s.len() == 0 {
        0
    } else {
        clamped_entries(s.drop_last()) + if s.last().1 > i64::MAX {
            1nat
        } else {
            0nat
        }
    }
}

/// `end` closes the chunk that starts at `start`: entries are taken one at
/// a time until the chunk holds at least `batch` commands, or the entries
/// run out. A key's commands are never split across chunks.
pub open spec fn is_chunk_end(s: Seq<(AggregationKey, u64)>, start: int, end: int, batch: int) -> bool {
    &&& start < end <= s.len()
    &&& end < s.len() ==> commands_for(s.subrange(start, end)).len() >= batch
    &&& forall|j: int| start < j < end ==> #[trigger] commands_for(s.subrange(start, j)).len() < batch
}

/// The entries among the first `n` whose fate is `which`, in order.
pub open spec fn entries_with(
    s: Seq<(AggregationKey, u64)>,
    fates: Seq<EntryFate>,
    which: EntryFate,
    n: int,
) -> Seq<(AggregationKey, u64)>
    decreases n,
{
    if n <= 0 {
        Seq::empty()
    } else if fates[n - 1] == which {
        entries_with(s, fates, which, n - 1).push(s[n - 1])
    } else {
        entries_with(s, fates, which, n - 1)
    }
}

proof fn lemma_entries_with_prefix(
    s: Seq<(AggregationKey, u64)>,
    f1: Seq<EntryFate>,
    f2: Seq<EntryFate>,
    which: EntryFate,
    n: int,
)
    requires
        forall|i: int| 0 <= i < n ==> f1[i] == f2[i],
    ensures
        entries_with(s, f1, which, n) == entries_with(s, f2, which, n),
    decreases n,
{
    if n > 0 {
        lemma_entries_with_prefix(s, f1, f2, which, n - 1);
    }
}

/// Settling the entries `start..end` with one fate extends the list of
/// entries of that fate by exactly those entries, and no other list.
proof fn lemma_entries_with_block(
    s: Seq<(AggregationKey, u64)>,
    before: Seq<EntryFate>,
    after: Seq<EntryFate>,
    fate: EntryFate,
    which: EntryFate,
    start: int,
    end: int,
)
    requires
        0 <= start <= end <= s.len(),
        forall|i: int| 0 <= i < start ==> after[i] == before[i],
        forall|i: int| start <= i < end ==> after[i] == fate,
    ensures
        entries_with(s, after, which, end) == entries_with(s, before, which, start) + (if fate
            == which {
            s.subrange(start, end)
        } else {
            Seq::empty()
        }),
    decreases end - start,
{
    if end == start {
        lemma_entries_with_prefix(s, after, before, which, start);
        assert(s.subrange(start, end) =~= Seq::<(AggregationKey, u64)>::empty());
    } else {
        lemma_entries_with_block(s, before, after, fate, which, start, end - 1);
        if fate == which {
            assert(s.subrange(start, end) =~= s.subrange(start, end - 1).push(s[end - 1]));
        }
    }
}

/// Among the first `n` entries, if every fate is settled, the three
/// lists of fates add up to all of them.
pub proof fn lemma_fates_partition(s: Seq<(AggregationKey, u64)>, fates: Seq<EntryFate>, n: int)
    requires
        0 <= n <= s.len(),
    ensures
        seq_total(entries_with(s, fates, EntryFate::Flushed, n)) + seq_total(
            entries_with(s, fates, EntryFate::Dropped, n),
        ) + seq_total(entries_with(s, fates, EntryFate::Requeued, n)) == seq_total(
            s.take(n),
        ),
        entries_with(s, fates, EntryFate::Flushed, n).len() + entries_with(
            s,
            fates,
            EntryFate::Dropped,
            n,
        ).len() + entries_with(s, fates, EntryFate::Requeued, n).len() == n,
    decreases n,
{
    if n > 0 {
        lemma_fates_partition(s, fates, n - 1);
        assert(s.take(n) =~= s.take(n - 1).push(s[n - 1]));
        lemma_seq_total_push(s.take(n - 1), s[n - 1]);
        let f = entries_with(s, fates, EntryFate::Flushed, n - 1);
        let d = entries_with(s, fates, EntryFate::Dropped, n - 1);
        let r = entries_with(s, fates, EntryFate::Requeued, n - 1);
        lemma_seq_total_push(f, s[n - 1]);
        lemma_seq_total_push(d, s[n - 1]);
        lemma_seq_total_push(r, s[n - 1]);
    } else {
        assert(s.take(0) =~= Seq::<(AggregationKey, u64)>::empty());
    }
}

proof fn lemma_saturating_add(a: nat, b: nat)
    ensures
        saturate(saturate(a as int) + saturate(b as int)) == saturate((a + b) as int),
{
}

proof fn lemma_commands_push(s: Seq<(AggregationKey, u64)>, lo: int, hi: int)
    requires
        0 <= lo < hi <= s.len(),
    ensures
        commands_for(s.subrange(lo, hi)) == commands_for(s.subrange(lo, hi - 1)) + entry_commands(
            s[hi - 1],
        ),
        clamped_entries(s.subrange(lo, hi)) == clamped_entries(s.subrange(lo, hi - 1)) + if s[hi
            - 1].1 > i64::MAX {
            1nat
        } else {
            0nat
        },
{
    assert(s.subrange(lo, hi).drop_last() =~= s.subrange(lo, hi - 1));
}

/// Builds the commands of `entries[lo..hi]` and counts the clamped
/// entries among them.
fn build_commands(entries: &Vec<(AggregationKey, u64)>, lo: usize, hi: usize) -> (r: (
    Vec<IncrementCommand>,
    u64,
))
    requires
        lo <= hi <= entries@.len(),
    ensures
        r.0@.map_values(|c: IncrementCommand| c@) == commands_for(entries@.subrange(lo as int, hi as int)),
        r.1 == clamped_entries(entries@.subrange(lo as int, hi as int)),
{
    let mut commands: Vec<IncrementCommand> = Vec::new();
    let mut clamped: u64 = 0;
    let mut i: usize = lo;
    assert(entries@.subrange(lo as int, lo as int) =~= Seq::<(AggregationKey, u64)>::empty());
    assert(commands@.map_values(|c: IncrementCommand| c@) =~= Seq::<(Seq<char>, Seq<char>, i64)>::empty());
    while i < hi
        invariant
            lo <= i <= hi <= entries@.len(),
            commands@.map_values(|c: IncrementCommand| c@) == commands_for(
                entries@.subrange(lo as int, i as int),
            ),
            clamped == clamped_entries(entries@.subrange(lo as int, i as int)),
            clamped <= i - lo,
        decreases hi - i,
    {
        let (key, count) = entries[i];
        proof {
            lemma_commands_push(entries@, lo as int, i + 1);
        }
        let count_i64: i64 = if count > 0x7fff_ffff_ffff_ffffu64 {
            clamped = clamped + 1;
            0x7fff_ffff_ffff_ffffi64
        } else {
            count as i64
        };
        let ghost before = commands@;
        let field = u64_to_decimal(key.bucket);
        match key.library {
            Some(library) => {
                let library_key = get_team_request_library_key(
                    key.team_id,
                    key.request_type,
                    library,
                );
                commands.push(
                    IncrementCommand { key: library_key, field: field.clone(), count: count_i64 },
                );
            },
            None => {},
        }
        let team_key = get_team_request_key(key.team_id, key.request_type);
        commands.push(IncrementCommand { key: team_key, field, count: count_i64 });
        proof {
            let e = entries@[i as int];
            assert(e == (key, count));
            assert(commands@.map_values(|c: IncrementCommand| c@) =~= before.map_values(
                |c: IncrementCommand| c@,
            ) + entry_commands(e));
        }
        i = i + 1;
    }
    (commands, clamped)
}

/// The commands of one chunk, ready to send as one pipeline.
pub struct Chunk {
    pub commands: Vec<IncrementCommand>,
    /// How many entries of the chunk had a count above `i64::MAX` and were
    /// written as `i64::MAX`.
    pub clamped_entries: u64,
    /// Saturating sum of the chunk's entry counts: the requests it bills.
    pub counts: u64,
}

/// A flush in progress over a drained batch of entries.
pub struct FlushRun {
    entries: Vec<(AggregationKey, u64)>,
    policy: FlushPolicy,
    batch_size: usize,
    done: usize,
    chunk_end: usize,
    chunk_counts: u64,
    bailed: bool,
    total_counts: u64,
    flushed_counts: u64,
    dropped_counts: u64,
    any_error: bool,
    requeue: Vec<(AggregationKey, u64)>,
    fates: Ghost<Seq<EntryFate>>,
}

/// What a finished flush leaves to account for.
pub struct FlushResult {
    /// Entries to merge back into the pending map.
    pub requeue: Vec<(AggregationKey, u64)>,
    /// Saturating sum of the re-queued counts.
    pub requeued_counts: u64,
    /// Saturating sum of the counts written to Redis.
    pub flushed_counts: u64,
    /// Saturating sum of the counts lost to failed chunks.
    pub dropped_counts: u64,
    /// Some chunk failed.
    pub any_error: bool,
}

impl FlushRun {
    /// The drained entries, in the order they are flushed.
    pub closed spec fn spec_entries(&self) -> Seq<(AggregationKey, u64)> {
        self.entries@
    }

    pub closed spec fn spec_policy(&self) -> FlushPolicy {
        self.policy
    }

    /// Commands per chunk (at least one).
    pub closed spec fn spec_batch_size(&self) -> int {
        self.batch_size as int
    }

    /// Entries `0..done` have a settled fate.
    pub closed spec fn spec_done(&self) -> int {
        self.done as int
    }

    /// Entries `done..chunk_end` form the chunk now in flight (empty when
    /// no chunk is in flight).
    pub closed spec fn spec_chunk_end(&self) -> int {
        self.chunk_end as int
    }

    /// The fate of each settled entry.
    pub closed spec fn spec_fates(&self) -> Seq<EntryFate> {
        self.fates@
    }

    pub closed spec fn spec_bailed(&self) -> bool {
        self.bailed
    }

    pub closed spec fn spec_total_counts(&self) -> u64 {
        self.total_counts
    }

    pub closed spec fn spec_flushed_counts(&self) -> u64 {
        self.flushed_counts
    }

    pub closed spec fn spec_dropped_counts(&self) -> u64 {
        self.dropped_counts
    }

    pub closed spec fn spec_any_error(&self) -> bool {
        self.any_error
    }

    pub closed spec fn spec_requeue(&self) -> Seq<(AggregationKey, u64)> {
        self.requeue@
    }

    /// The settled entries of one fate.
    pub open spec fn settled(&self, which: EntryFate) -> Seq<(AggregationKey, u64)> {
        entries_with(self.spec_entries(), self.spec_fates(), which, self.spec_done())
    }

    /// No chunk is in flight.
    pub open spec fn idle(&self) -> bool {
        self.spec_chunk_end() == self.spec_done()
    }

    /// Every entry has a fate and no chunk is in flight.
    pub open spec fn finished(&self) -> bool {
        &&& self.idle()
        &&& self.spec_done() == self.spec_entries().len()
    }

    pub open spec fn wf(&self) -> bool {
        &&& self.spec_batch_size() >= 1
        &&& 0 <= self.spec_done() <= self.spec_chunk_end() <= self.spec_entries().len()
        &&& self.spec_fates().len() == self.spec_entries().len()
        &&& distinct_keys(self.spec_entries())
        &&& self.spec_total_counts() == saturate(seq_total(self.spec_entries()) as int)
        &&& self.spec_flushed_counts() == saturate(seq_total(self.settled(EntryFate::Flushed)) as int)
        &&& self.spec_dropped_counts() == saturate(seq_total(self.settled(EntryFate::Dropped)) as int)
        &&& self.spec_requeue() == self.settled(EntryFate::Requeued)
        &&& self.spec_any_error() == (exists|i: int|
            0 <= i < self.spec_done() && #[trigger] self.spec_fates()[i] != EntryFate::Flushed)
        &&& self.spec_policy() == FlushPolicy::BailOnError ==> forall|i: int|
            0 <= i < self.spec_done() ==> #[trigger] self.spec_fates()[i] != EntryFate::Dropped
        &&& self.spec_policy() == FlushPolicy::BestEffort ==> !self.spec_bailed()
        &&& !self.spec_bailed() ==> forall|i: int|
            0 <= i < self.spec_done() ==> #[trigger] self.spec_fates()[i] != EntryFate::Requeued
        &&& self.spec_bailed() ==> self.finished()
        &&& self.chunk_inv()
    }

    /// The chunk in flight is a well-formed chunk and its count sum is
    /// tracked.
    pub closed spec fn chunk_inv(&self) -> bool {
        &&& self.chunk_counts == saturate(
            seq_total(self.entries@.subrange(self.done as int, self.chunk_end as int)) as int,
        )
        &&& self.done < self.chunk_end ==> is_chunk_end(
            self.entries@,
            self.done as int,
            self.chunk_end as int,
            self.batch_size as int,
        )
    }

    /// Starts a flush of `entries`, whose keys are distinct, with chunks of
    /// `max(per_flush_batch_size, 1)` commands.
    pub fn new(
        entries: Vec<(AggregationKey, u64)>,
        policy: FlushPolicy,
        per_flush_batch_size: usize,
    ) -> (run: FlushRun)
        requires
            distinct_keys(entries@),
        ensures
            run.wf(),
            run.spec_entries() == entries@,
            run.spec_policy() == policy,
            run.spec_batch_size() == if per_flush_batch_size == 0 {
                1
            } else {
                per_flush_batch_size as int
            },
            run.spec_done() == 0,
            run.idle(),
            !run.spec_bailed(),
            run.spec_requeue().len() == 0,
            !run.spec_any_error(),
    {
        let total_counts = saturating_sum(&entries);
        let batch_size = if per_flush_batch_size == 0 {
            1
        } else {
            per_flush_batch_size
        };
        let ghost fates = Seq::new(entries@.len(), |i: int| EntryFate::Flushed);
        let run = FlushRun {
            entries,
            policy,
            batch_size,
            done: 0,
            chunk_end: 0,
            chunk_counts: 0,
            bailed: false,
            total_counts,
            flushed_counts: 0,
            dropped_counts: 0,
            any_error: false,
            requeue: Vec::new(),
            fates: Ghost(fates),
        };
        proof {
            assert(run.entries@.subrange(0, 0) =~= Seq::<(AggregationKey, u64)>::empty());
            assert(run.requeue@ =~= run.settled(EntryFate::Requeued));
        }
        run
    }

    /// Saturating sum of all drained counts.
    pub fn total_counts(&self) -> (t: u64)
        ensures
            t == self.spec_total_counts(),
    {
        self.total_counts
    }

    /// Saturating sum of the counts written so far.
    pub fn flushed_counts(&self) -> (t: u64)
        ensures
            t == self.spec_flushed_counts(),
    {
        self.flushed_counts
    }

    /// The next chunk to send, or `None` once every entry is settled (in
    /// bail mode, after the first failed chunk).
    pub fn next_chunk(&mut self) -> (chunk: Option<Chunk>)
        requires
            old(self).wf(),
            old(self).idle(),
        ensures
            final(self).wf(),
            chunk is None <==> old(self).finished(),
            chunk is None ==> *final(self) == *old(self),
            chunk matches Some(c) ==> {
                &&& is_chunk_end(
                    old(self).spec_entries(),
                    old(self).spec_done(),
                    final(self).spec_chunk_end(),
                    old(self).spec_batch_size(),
                )
                &&& c.commands@.map_values(|c: IncrementCommand| c@) == commands_for(
                    old(self).spec_entries().subrange(
                        old(self).spec_done(),
                        final(self).spec_chunk_end(),
                    ),
                )
                &&& c.clamped_entries == clamped_entries(
                    old(self).spec_entries().subrange(
                        old(self).spec_done(),
                        final(self).spec_chunk_end(),
                    ),
                )
                &&& c.counts == saturate(
                    seq_total(
                        old(self).spec_entries().subrange(
                            old(self).spec_done(),
                            final(self).spec_chunk_end(),
                        ),
                    ) as int,
                )
                &&& final(self).spec_entries() == old(self).spec_entries()
                &&& final(self).spec_policy() == old(self).spec_policy()
                &&& final(self).spec_batch_size() == old(self).spec_batch_size()
                &&& final(self).spec_done() == old(self).spec_done()
                &&& final(self).spec_fates() == old(self).spec_fates()
                &&& final(self).spec_bailed() == old(self).spec_bailed()
                &&& final(self).spec_total_counts() == old(self).spec_total_counts()
                &&& final(self).spec_flushed_counts() == old(self).spec_flushed_counts()
                &&& final(self).spec_dropped_counts() == old(self).spec_dropped_counts()
                &&& final(self).spec_any_error() == old(self).spec_any_error()
                &&& final(self).spec_requeue() == old(self).spec_requeue()
            },
    {
        if self.done >= self.entries.len() {
            return None;
        }
        let start = self.done;
        let mut end = start;
        let mut command_count: u128 = 0;
        let mut counts: u64 = 0;
        let len = self.entries.len();
        let batch = self.batch_size;
        proof {
            assert(self.entries@.subrange(start as int, start as int) =~= Seq::<
                (AggregationKey, u64),
            >::empty());
        }
        while end < len && command_count < batch as u128
            invariant
                start <= end <= len,
                len == self.entries@.len(),
                batch == self.batch_size,
                start == self.done,
                self.done < len,
                end == start || command_count >= 1,
                command_count as int == commands_for(
                    self.entries@.subrange(start as int, end as int),
                ).len(),
                command_count <= 2 * (end - start),
                counts == saturate(
                    seq_total(self.entries@.subrange(start as int, end as int)) as int,
                ),
                forall|j: int|
                    start < j < end ==> #[trigger] commands_for(
                        self.entries@.subrange(start as int, j),
                    ).len() < batch,
            decreases len - end,
        {
            let ghost before = end;
            proof {
                lemma_commands_push(self.entries@, start as int, end + 1);
                assert(self.entries@.subrange(start as int, end + 1) =~= self.entries@.subrange(
                    start as int,
                    end as int,
                ).push(self.entries@[end as int]));
                lemma_seq_total_push(
                    self.entries@.subrange(start as int, end as int),
                    self.entries@[end as int],
                );
            }
            let (key, count) = self.entries[end];
            command_count = command_count + if key.library.is_some() {
                2
            } else {
                1
            };
            counts = counts.saturating_add(count);
            end = end + 1;
        }
        let (commands, clamped) = build_commands(&self.entries, start, end);
        self.chunk_end = end;
        self.chunk_counts = counts;
        Some(Chunk { commands, clamped_entries: clamped, counts })
    }

    /// Settles the chunk in flight. On success its entries are flushed. On
    /// failure they are dropped in best-effort mode; in bail mode they and
    /// every entry not yet attempted are re-queued and the run stops.
    pub fn settle_chunk(&mut self, succeeded: bool) -> (outcome: ChunkOutcome)
        requires
            old(self).wf(),
            !old(self).idle(),
        ensures
            final(self).wf(),
            final(self).idle(),
            final(self).spec_entries() == old(self).spec_entries(),
            final(self).spec_policy() == old(self).spec_policy(),
            final(self).spec_batch_size() == old(self).spec_batch_size(),
            final(self).spec_total_counts() == old(self).spec_total_counts(),
            forall|i: int|
                0 <= i < old(self).spec_done() ==> #[trigger] final(self).spec_fates()[i] == old(self).spec_fates()[i],
            succeeded ==> {
                &&& outcome == ChunkOutcome::Written
                &&& final(self).spec_done() == old(self).spec_chunk_end()
                &&& forall|i: int|
                    old(self).spec_done() <= i < old(self).spec_chunk_end() ==> #[trigger] final(self).spec_fates()[i] == EntryFate::Flushed
                &&& final(self).spec_any_error() == old(self).spec_any_error()
                &&& !final(self).spec_bailed()
            },
            !succeeded && old(self).spec_policy() == FlushPolicy::BestEffort ==> {
                &&& outcome == ChunkOutcome::Failed
                &&& final(self).spec_done() == old(self).spec_chunk_end()
                &&& forall|i: int|
                    old(self).spec_done() <= i < old(self).spec_chunk_end() ==> #[trigger] final(self).spec_fates()[i] == EntryFate::Dropped
                &&& final(self).spec_any_error()
                &&& !final(self).spec_bailed()
            },
            !succeeded && old(self).spec_policy() == FlushPolicy::BailOnError ==> {
                &&& outcome == ChunkOutcome::FailedBail
                &&& final(self).spec_done() == old(self).spec_entries().len()
                &&& forall|i: int|
                    old(self).spec_done() <= i < old(self).spec_entries().len() ==> #[trigger] final(self).spec_fates()[i] == EntryFate::Requeued
                &&& final(self).spec_any_error()
                &&& final(self).spec_bailed()
                &&& final(self).spec_requeue() == old(self).spec_entries().subrange(
                    old(self).spec_done(),
                    old(self).spec_entries().len() as int,
                )
            },
    {
        let ghost s = self.entries@;
        let ghost old_fates = self.fates@;
        let ghost start = self.done as int;
        let ghost end = self.chunk_end as int;
        let ghost len = s.len() as int;
        proof {
            lemma_seq_total_split(s, 0, start, end);
        }
        if succeeded {
            let ghost new_fates = Seq::new(
                s.len(),
                |i: int|
                    if start <= i < end {
                        EntryFate::Flushed
                    } else {
                        old_fates[i]
                    },
            );
            proof {
                lemma_entries_with_block(s, old_fates, new_fates, EntryFate::Flushed, EntryFate::Flushed, start, end);
                lemma_entries_with_block(s, old_fates, new_fates, EntryFate::Flushed, EntryFate::Dropped, start, end);
                lemma_entries_with_block(s, old_fates, new_fates, EntryFate::Flushed, EntryFate::Requeued, start, end);
                lemma_seq_total_append(
                    entries_with(s, old_fates, EntryFate::Flushed, start),
                    s.subrange(start, end),
                );
                lemma_saturating_add(
                    seq_total(entries_with(s, old_fates, EntryFate::Flushed, start)),
                    seq_total(s.subrange(start, end)),
                );
            }
            self.flushed_counts = self.flushed_counts.saturating_add(self.chunk_counts);
            self.fates = Ghost(new_fates);
            self.done = self.chunk_end;
            self.chunk_counts = 0;
            proof {
                assert(s.subrange(end, end) =~= Seq::<(AggregationKey, u64)>::empty());
                assert(self.requeue@ =~= self.settled(EntryFate::Requeued));
                assert(self.spec_any_error() == (exists|i: int|
                    0 <= i < self.spec_done() && #[trigger] self.spec_fates()[i]
                        != EntryFate::Flushed)) by {
                    if exists|i: int|
                        0 <= i < self.spec_done() && #[trigger] self.spec_fates()[i]
                            != EntryFate::Flushed {
                        let i = choose|i: int|
                            0 <= i < self.spec_done() && #[trigger] self.spec_fates()[i]
                                != EntryFate::Flushed;
                        assert(old_fates[i] != EntryFate::Flushed);
                    }
                    if old(self).spec_any_error() {
                        let i = choose|i: int|
                            0 <= i < old(self).spec_done() && #[trigger] old(self).spec_fates()[i]
                                != EntryFate::Flushed;
                        assert(self.spec_fates()[i] != EntryFate::Flushed);
                    }
                }
            }
            ChunkOutcome::Written
        } else {
            match self.policy {
                FlushPolicy::BestEffort => {
                    let ghost new_fates = Seq::new(
                        s.len(),
                        |i: int|
                            if start <= i < end {
                                EntryFate::Dropped
                            } else {
                                old_fates[i]
                            },
                    );
                    proof {
                        lemma_entries_with_block(s, old_fates, new_fates, EntryFate::Dropped, EntryFate::Flushed, start, end);
                        lemma_entries_with_block(s, old_fates, new_fates, EntryFate::Dropped, EntryFate::Dropped, start, end);
                        lemma_entries_with_block(s, old_fates, new_fates, EntryFate::Dropped, EntryFate::Requeued, start, end);
                        lemma_seq_total_append(
                            entries_with(s, old_fates, EntryFate::Dropped, start),
                            s.subrange(start, end),
                        );
                        lemma_saturating_add(
                            seq_total(entries_with(s, old_fates, EntryFate::Dropped, start)),
                            seq_total(s.subrange(start, end)),
                        );
                    }
                    self.dropped_counts = self.dropped_counts.saturating_add(self.chunk_counts);
                    self.fates = Ghost(new_fates);
                    self.done = self.chunk_end;
                    self.chunk_counts = 0;
                    self.any_error = true;
                    proof {
                        assert(s.subrange(end, end) =~= Seq::<(AggregationKey, u64)>::empty());
                        assert(self.requeue@ =~= self.settled(EntryFate::Requeued));
                        assert(self.spec_fates()[start] != EntryFate::Flushed);
                    }
                    ChunkOutcome::Failed
                },
                FlushPolicy::BailOnError => {
                    let ghost new_fates = Seq::new(
                        s.len(),
                        |i: int|
                            if start <= i {
                                EntryFate::Requeued
                            } else {
                                old_fates[i]
                            },
                    );
                    proof {
                        lemma_entries_with_block(s, old_fates, new_fates, EntryFate::Requeued, EntryFate::Flushed, start, len);
                        lemma_entries_with_block(s, old_fates, new_fates, EntryFate::Requeued, EntryFate::Dropped, start, len);
                        lemma_entries_with_block(s, old_fates, new_fates, EntryFate::Requeued, EntryFate::Requeued, start, len);
                        assert(entries_with(s, old_fates, EntryFate::Requeued, start) =~= Seq::<
                            (AggregationKey, u64),
                        >::empty()) by {
                            lemma_no_fate_empty(s, old_fates, EntryFate::Requeued, start);
                        }
                    }
                    let mut requeue: Vec<(AggregationKey, u64)> = Vec::new();
                    let mut i = self.done;
                    let entries = &self.entries;
                    proof {
                        assert(s.subrange(start, start) =~= Seq::<(AggregationKey, u64)>::empty());
                    }
                    while i < entries.len()
                        invariant
                            0 <= start <= i <= entries@.len(),
                            entries@ == s,
                            requeue@ == s.subrange(start, i as int),
                        decreases entries@.len() - i,
                    {
                        let e = entries[i];
                        requeue.push(e);
                        proof {
                            assert(s.subrange(start, i + 1) =~= s.subrange(start, i as int).push(e));
                        }
                        i = i + 1;
                    }
                    self.requeue = requeue;
                    self.fates = Ghost(new_fates);
                    self.done = self.entries.len();
                    self.chunk_end = self.entries.len();
                    self.chunk_counts = 0;
                    self.bailed = true;
                    self.any_error = true;
                    proof {
                        assert(s.subrange(len, len) =~= Seq::<(AggregationKey, u64)>::empty());
                        assert(self.requeue@ =~= self.settled(EntryFate::Requeued));
                        assert(self.spec_fates()[start] != EntryFate::Flushed);
                    }
                    ChunkOutcome::FailedBail
                },
            }
        }
    }

    /// Closes a run whose entries are all settled.
    pub fn finish(self) -> (r: FlushResult)
        requires
            self.wf(),
            self.finished(),
        ensures
            r.requeue@ == self.settled(EntryFate::Requeued),
            distinct_keys(r.requeue@),
            r.requeued_counts == saturate(seq_total(r.requeue@) as int),
            r.flushed_counts == self.spec_flushed_counts(),
            r.dropped_counts == self.spec_dropped_counts(),
            r.any_error == self.spec_any_error(),
    {
        let requeued_counts = saturating_sum(&self.requeue);
        proof {
            lemma_settled_distinct(self.spec_entries(), self.spec_fates(), EntryFate::Requeued, self.spec_done());
        }
        FlushResult {
            requeue: self.requeue,
            requeued_counts,
            flushed_counts: self.flushed_counts,
            dropped_counts: self.dropped_counts,
            any_error: self.any_error,
        }
    }
}

proof fn lemma_no_fate_empty(
    s: Seq<(AggregationKey, u64)>,
    fates: Seq<EntryFate>,
    which: EntryFate,
    n: int,
)
    requires
        forall|i: int| 0 <= i < n ==> #[trigger] fates[i] != which,
    ensures
        entries_with(s, fates, which, n).len() == 0,
    decreases n,
{
    if n > 0 {
        lemma_no_fate_empty(s, fates, which, n - 1);
    }
}

/// The entries of one fate are a subsequence of the entries, so their
/// keys stay distinct.
proof fn lemma_settled_distinct(
    s: Seq<(AggregationKey, u64)>,
    fates: Seq<EntryFate>,
    which: EntryFate,
    n: int,
)
    requires
        0 <= n <= s.len(),
        fates.len() == s.len(),
        distinct_keys(s),
    ensures
        distinct_keys(entries_with(s, fates, which, n)),
        forall|k: int|
            #![trigger entries_with(s, fates, which, n)[k]]
            0 <= k < entries_with(s, fates, which, n).len() ==> exists|i: int|
                0 <= i < n && entries_with(s, fates, which, n)[k] == #[trigger] s[i],
    decreases n,
{
    if n > 0 {
        lemma_settled_distinct(s, fates, which, n - 1);
        let prev = entries_with(s, fates, which, n - 1);
        if fates[n - 1] == which {
            let cur = prev.push(s[n - 1]);
            assert(entries_with(s, fates, which, n) == cur);
            assert forall|k: int|
                #![trigger entries_with(s, fates, which, n)[k]]
                0 <= k < entries_with(s, fates, which, n).len() implies exists|i: int|
                0 <= i < n && entries_with(s, fates, which, n)[k] == #[trigger] s[i] by {
                if k < prev.len() {
                    assert(cur[k] == prev[k]);
                    let i = choose|i: int| 0 <= i < n - 1 && prev[k] == #[trigger] s[i];
                    assert(cur[k] == s[i]);
                } else {
                    assert(cur[k] == s[n - 1]);
                }
            }
            assert forall|a: int, b: int| 0 <= a < b < cur.len() implies #[trigger] cur[a].0
                != #[trigger] cur[b].0 by {
                if b < prev.len() {
                    assert(cur[a] == prev[a] && cur[b] == prev[b]);
                } else {
                    assert(cur[a] == prev[a]);
                    let i = choose|i: int| 0 <= i < n - 1 && prev[a] == #[trigger] s[i];
                    assert(s[i].0 != s[n - 1].0);
                }
            }
        } else {
            assert(entries_with(s, fates, which, n) == prev);
            assert forall|k: int|
                #![trigger entries_with(s, fates, which, n)[k]]
                0 <= k < entries_with(s, fates, which, n).len() implies exists|i: int|
                0 <= i < n && entries_with(s, fates, which, n)[k] == #[trigger] s[i] by {
                let i = choose|i: int| 0 <= i < n - 1 && prev[k] == #[trigger] s[i];
                assert(prev[k] == s[i]);
            }
        }
    } else {
        assert(entries_with(s, fates, which, n).len() == 0);
    }
}

} // verus!
