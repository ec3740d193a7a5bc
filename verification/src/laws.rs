//! Properties that span several operations of the aggregator.

use vstd::prelude::*;
use crate::counts::{wrapped_add, wrapped_sub, saturate, seq_total, map_total, enumerates, coded, lemma_map_total, lemma_coded_total};
use crate::flush::{
    FlushRun, FlushPolicy, EntryFate, entries_with, lemma_fates_partition, is_chunk_end,
    commands_for, entry_commands, clamp_count, clamped_entries,
};
use crate::state::record_key;
use crate::key::AggregationKey;
use crate::pending::{recorded, record_outcome, merged, merge_maps, RecordOutcome};
use crate::request::{
    FlagRequestType, Library, decimal_digits, digit_char, signed_decimal, library_name,
    request_type_name, team_request_key_spec, team_request_library_key_spec,
};
use crate::config::{BillingAggregatorConfig, config_error};
use crate::duration::duration_nanos;
use crate::state::staleness_ms;
use crate::jitter::max_jitter_ms_spec;
use crate::flusher::{FlusherPhase, FlusherEvent, FlusherStep, flusher_transition};

verus! {

/// A count of a map, zero where the key is absent.
pub open spec fn count_in(m: Map<u128, u64>, c: u128) -> int {
    if m.contains_key(c) {
        m[c] as int
    } else {
        0
    }
}

/// Every drained count is accounted for exactly once: when a flush has
/// settled all its entries, the flushed, dropped and re-queued entries
/// together are all the drained entries, and their counts add up to the
/// drained total. Bail mode never drops; best-effort mode never re-queues.
pub proof fn law_flush_accounts_for_every_count(run: FlushRun)
    requires
        run.wf(),
        run.finished(),
    ensures
        seq_total(run.settled(EntryFate::Flushed)) + seq_total(run.settled(EntryFate::Dropped))
            + seq_total(run.settled(EntryFate::Requeued)) == seq_total(run.spec_entries()),
        run.settled(EntryFate::Flushed).len() + run.settled(EntryFate::Dropped).len()
            + run.settled(EntryFate::Requeued).len() == run.spec_entries().len(),
        run.spec_policy() == FlushPolicy::BailOnError ==> run.settled(EntryFate::Dropped).len()
            == 0,
        run.spec_policy() == FlushPolicy::BestEffort ==> run.settled(EntryFate::Requeued).len()
            == 0,
{
    let s = run.spec_entries();
    let f = run.spec_fates();
    let n = run.spec_done();
    lemma_fates_partition(s, f, n);
    assert(s.take(n) =~= s);
    if run.spec_policy() == FlushPolicy::BailOnError {
        lemma_absent_fate_empty(s, f, EntryFate::Dropped, n);
    } else {
        lemma_absent_fate_empty(s, f, EntryFate::Requeued, n);
    }
}

proof fn lemma_absent_fate_empty(
    s: Seq<(AggregationKey, u64)>,
    f: Seq<EntryFate>,
    which: EntryFate,
    n: int,
)
    requires
        forall|i: int| 0 <= i < n ==> #[trigger] f[i] != which,
    ensures
        entries_with(s, f, which, n).len() == 0,
    decreases n,
{
    if n > 0 {
        lemma_absent_fate_empty(s, f, which, n - 1);
    }
}

/// A flush of a drained map accounts for the map's whole total: flushed
/// plus dropped plus re-queued equals what was pending when it was drained.
pub proof fn law_flush_conserves_drained_total(pending: Map<u128, u64>, run: FlushRun)
    requires
        run.wf(),
        run.finished(),
        enumerates(pending, coded(run.spec_entries())),
    ensures
        seq_total(run.settled(EntryFate::Flushed)) + seq_total(run.settled(EntryFate::Dropped))
            + seq_total(run.settled(EntryFate::Requeued)) == map_total(pending),
        run.spec_total_counts() == saturate(map_total(pending) as int),
{
    law_flush_accounts_for_every_count(run);
    lemma_map_total(pending, coded(run.spec_entries()));
    lemma_coded_total(run.spec_entries());
}

/// Recording never evicts: keys other than the recorded one keep their
/// counts, the recorded key's count never goes down, and the map grows by
/// at most one key and never beyond the cap by recording.
pub proof fn law_record_keeps_other_counts(m: Map<u128, u64>, c: u128, cap: int)
    requires
        m.dom().finite(),
    ensures
        forall|d: u128|
            d != c ==> (#[trigger] recorded(m, c, cap).contains_key(d) <==> m.contains_key(d))
                && count_in(recorded(m, c, cap), d) == count_in(m, d),
        count_in(recorded(m, c, cap), c) >= count_in(m, c),
        m.len() <= recorded(m, c, cap).len() <= m.len() + 1,
        recorded(m, c, cap).len() > m.len() ==> recorded(m, c, cap).len() <= cap,
{
}

/// Merging re-queued entries back, and then the records that arrived
/// during the merge, loses and duplicates nothing: every key ends with the
/// saturating sum of its three counts.
pub proof fn law_requeue_merge_adds_counts(
    fresh: Map<u128, u64>,
    requeue: Map<u128, u64>,
    arrived: Map<u128, u64>,
    c: u128,
)
    ensures
        merge_maps(merge_maps(fresh, requeue), arrived).contains_key(c) <==> (fresh.contains_key(c)
            || requeue.contains_key(c) || arrived.contains_key(c)),
        count_in(merge_maps(merge_maps(fresh, requeue), arrived), c) == saturate(
            count_in(fresh, c) + count_in(requeue, c) + count_in(arrived, c),
        ),
{
}

/// A chunk holds at most one command more than the batch size: entries are
/// added until the batch is reached, and one entry adds at most two
/// commands.
pub proof fn law_chunk_size_bound(s: Seq<(AggregationKey, u64)>, start: int, end: int, batch: int)
    requires
        0 <= start,
        batch >= 1,
        is_chunk_end(s, start, end, batch),
    ensures
        commands_for(s.subrange(start, end)).len() <= batch + 1,
        end < s.len() ==> commands_for(s.subrange(start, end)).len() >= batch,
{
    let sub = s.subrange(start, end);
    assert(sub.drop_last() =~= s.subrange(start, end - 1));
    assert(commands_for(sub) == commands_for(sub.drop_last()) + entry_commands(sub.last()));
    assert(entry_commands(sub.last()).len() <= 2);
    if end - 1 > start {
        assert(commands_for(s.subrange(start, end - 1)).len() < batch);
    } else {
        assert(s.subrange(start, end - 1).len() == 0);
        assert(commands_for(s.subrange(start, end - 1)).len() == 0);
    }
}

/// The count written for an entry by its per-team command.
pub open spec fn team_command_total(s: Seq<(AggregationKey, u64)>) -> int
    decreases s.len(),
{
    if s.len() == 0 {
        0
    } else {
        team_command_total(s.drop_last()) + entry_commands(s.last()).last().2
    }
}

/// Each entry's count lands once in a per-team command: with no count
/// above `i64::MAX`, the per-team commands of a batch add up to its total.
pub proof fn law_team_commands_carry_total(s: Seq<(AggregationKey, u64)>)
    requires
        forall|i: int| 0 <= i < s.len() ==> #[trigger] s[i].1 <= i64::MAX,
    ensures
        team_command_total(s) == seq_total(s),
    decreases s.len(),
{
    if s.len() > 0 {
        let t = s.drop_last();
        assert forall|i: int| 0 <= i < t.len() implies #[trigger] t[i].1 <= i64::MAX by {
            assert(t[i] == s[i]);
        }
        law_team_commands_carry_total(t);
        assert(s.last() == s[s.len() - 1]);
        assert(clamp_count(s.last().1) == s.last().1);
    }
}


// ---------------------------------------------------------------------
// Recording.
// ---------------------------------------------------------------------

/// One recorded request adds exactly one to its key, whatever the request
/// type: an existing key below `u64::MAX` goes from `n` to `n + 1`, a key
/// at `u64::MAX` stays there, a new key starts at one when the map is
/// below its cap, and a new key at the cap leaves the map as it was. The
/// outcome reports which case happened.
pub proof fn law_record_adds_one(m: Map<u128, u64>, c: u128, cap: int)
    ensures
        m.contains_key(c) && m[c] < u64::MAX ==> recorded(m, c, cap).contains_key(c)
            && recorded(m, c, cap)[c] == m[c] + 1 && recorded(m, c, cap).remove(c) == m.remove(
            c,
        ),
        m.contains_key(c) && m[c] == u64::MAX ==> recorded(m, c, cap) == m,
        !m.contains_key(c) && m.len() < cap ==> recorded(m, c, cap) == m.insert(c, 1),
        !m.contains_key(c) && m.len() >= cap ==> recorded(m, c, cap) == m,
        (record_outcome(m, c, cap) == RecordOutcome::Capped) == (!m.contains_key(c) && m.len()
            >= cap),
        (record_outcome(m, c, cap) == RecordOutcome::Saturated) == (m.contains_key(c) && m[c]
            == u64::MAX),
{
    if m.contains_key(c) && m[c] < u64::MAX {
        assert(recorded(m, c, cap).remove(c) =~= m.remove(c));
    }
}

/// Recording the same key twice counts two requests.
pub proof fn law_record_twice_adds_two(m: Map<u128, u64>, c: u128, cap: int)
    requires
        m.contains_key(c) ==> m[c] < u64::MAX - 1,
        !m.contains_key(c) ==> m.len() < cap,
    ensures
        recorded(recorded(m, c, cap), c, cap).contains_key(c),
        recorded(recorded(m, c, cap), c, cap)[c] == count_in(m, c) + 2,
{
}

/// Merging `count` into a key adds it (saturating) and touches no other key.
pub proof fn law_merge_adds_count(m: Map<u128, u64>, c: u128, count: u64, d: u128)
    ensures
        merged(m, c, count).contains_key(c),
        count_in(merged(m, c, count), c) == saturate(count_in(m, c) + count),
        d != c ==> count_in(merged(m, c, count), d) == count_in(m, d) && (merged(
            m,
            c,
            count,
        ).contains_key(d) == m.contains_key(d)),
{
}

// ---------------------------------------------------------------------
// Decimal numbers in keys and fields.
// ---------------------------------------------------------------------

/// A character `0`..`9`.
pub open spec fn is_digit(ch: char) -> bool {
    48 <= ch as int <= 57
}

/// The value of a string of decimal digits, most significant first.
pub open spec fn decimal_value(s: Seq<char>) -> int
    decreases s.len(),
{
    if s.len() == 0 {
        0
    } else {
        decimal_value(s.drop_last()) * 10 + (s.last() as int - 48)
    }
}

/// The value of an optionally `-`-signed decimal string.
pub open spec fn signed_value(s: Seq<char>) -> int {
    if s.len() > 0 && s[0] == '-' {
        -decimal_value(s.drop_first())
    } else {
        decimal_value(s)
    }
}

/// The decimal form of `n` is a non-empty string of digits that reads back
/// as `n`.
pub proof fn law_decimal_reads_back(n: nat)
    ensures
        decimal_digits(n).len() >= 1,
        forall|i: int| 0 <= i < decimal_digits(n).len() ==> #[trigger] is_digit(decimal_digits(n)[i]),
        decimal_value(decimal_digits(n)) == n,
    decreases n,
{
    let s = decimal_digits(n);
    if n < 10 {
        assert(digit_char(n as int) as int == n + 48);
        assert(s.drop_last() =~= Seq::<char>::empty());
        assert(decimal_value(s.drop_last()) == 0);
        assert(s.last() == digit_char(n as int));
    } else {
        law_decimal_reads_back(n / 10);
        let d = (n % 10) as int;
        assert(digit_char(d) as int == d + 48);
        assert(s.drop_last() =~= decimal_digits(n / 10));
        assert(s.last() == digit_char(d));
        vstd::arithmetic::div_mod::lemma_fundamental_div_mod(n as int, 10);
        assert(decimal_value(s) == decimal_value(decimal_digits(n / 10)) * 10 + d);
        assert forall|i: int| 0 <= i < s.len() implies #[trigger] is_digit(s[i]) by {
            if i < s.len() - 1 {
                assert(s[i] == decimal_digits(n / 10)[i]);
            }
        }
    }
}

/// Distinct numbers have distinct decimal forms.
pub proof fn law_decimal_injective(a: nat, b: nat)
    ensures
        decimal_digits(a) == decimal_digits(b) <==> a == b,
{
    law_decimal_reads_back(a);
    law_decimal_reads_back(b);
}

/// The signed decimal form of `n` reads back as `n`, is non-empty, and
/// holds only digits and a leading `-`.
pub proof fn law_signed_decimal_reads_back(n: int)
    ensures
        signed_decimal(n).len() >= 1,
        signed_value(signed_decimal(n)) == n,
        forall|i: int|
            0 <= i < signed_decimal(n).len() ==> is_digit(#[trigger] signed_decimal(n)[i]) || (i
                == 0 && signed_decimal(n)[i] == '-'),
{
    let s = signed_decimal(n);
    if n < 0 {
        let m = (-n) as nat;
        law_decimal_reads_back(m);
        assert(s.drop_first() =~= decimal_digits(m));
        assert forall|i: int| 0 <= i < s.len() implies is_digit(#[trigger] s[i]) || (i == 0
            && s[i] == '-') by {
            if i > 0 {
                assert(s[i] == decimal_digits(m)[i - 1]);
            }
        }
    } else {
        law_decimal_reads_back(n as nat);
        assert(is_digit(s[0]));
    }
}

proof fn lemma_no_colon(n: int)
    ensures
        forall|i: int| 0 <= i < signed_decimal(n).len() ==> #[trigger] signed_decimal(n)[i] != ':',
{
    law_signed_decimal_reads_back(n);
    assert forall|i: int| 0 <= i < signed_decimal(n).len() implies #[trigger] signed_decimal(
        n,
    )[i] != ':' by {
        assert(is_digit(signed_decimal(n)[i]) || signed_decimal(n)[i] == '-');
    }
}

// ---------------------------------------------------------------------
// Key layout.
// ---------------------------------------------------------------------

/// Distinct libraries have distinct names.
pub proof fn law_library_names_distinct(a: Library, b: Library)
    ensures
        library_name(a) == library_name(b) <==> a == b,
{
    reveal_strlit("posthog-js");
    reveal_strlit("posthog-node");
    reveal_strlit("posthog-python");
    reveal_strlit("posthog-php");
    reveal_strlit("posthog-ruby");
    reveal_strlit("posthog-go");
    reveal_strlit("posthog-java");
    reveal_strlit("posthog-dotnet");
    reveal_strlit("posthog-elixir");
    reveal_strlit("posthog-android");
    reveal_strlit("posthog-ios");
    reveal_strlit("posthog-react-native");
    reveal_strlit("posthog-flutter");
    reveal_strlit("other");
    if library_name(a) == library_name(b) && a != b {
        let x = library_name(a);
        let y = library_name(b);
        assert(x.len() == y.len());
        assert(x[8] == y[8]);
        assert(x[9] == y[9]);
        assert(x[x.len() - 1] == y[y.len() - 1]);
    }
}

/// Distinct request types have distinct labels.
pub proof fn law_request_type_names_distinct(a: FlagRequestType, b: FlagRequestType)
    ensures
        request_type_name(a) == request_type_name(b) <==> a == b,
{
    reveal_strlit("decide");
    reveal_strlit("flag_definitions");
    if a != b {
        assert(request_type_name(a).len() != request_type_name(b).len());
    }
}

proof fn lemma_prefix_split(p: Seq<char>, a: Seq<char>)
    ensures
        (p + a).subrange(0, p.len() as int) == p,
        (p + a).subrange(p.len() as int, (p + a).len() as int) == a,
{
    assert((p + a).subrange(0, p.len() as int) =~= p);
    assert((p + a).subrange(p.len() as int, (p + a).len() as int) =~= a);
}

/// The team key names the request type's hash and then the team id in
/// decimal, which reads back as the team id itself.
pub proof fn law_team_key_names_team(t: i32, r: FlagRequestType)
    ensures
        ({
            let key = team_request_key_spec(t, r);
            let prefix = match r {
                FlagRequestType::Decide => "posthog:decide_requests:"@,
                FlagRequestType::FlagDefinitions => "posthog:local_evaluation_requests:"@,
            };
            &&& key.subrange(0, prefix.len() as int) == prefix
            &&& signed_value(key.subrange(prefix.len() as int, key.len() as int)) == t
        }),
{
    let prefix = match r {
        FlagRequestType::Decide => "posthog:decide_requests:"@,
        FlagRequestType::FlagDefinitions => "posthog:local_evaluation_requests:"@,
    };
    lemma_prefix_split(prefix, signed_decimal(t as int));
    law_signed_decimal_reads_back(t as int);
}

/// Two team keys are equal only for the same team and request type: no
/// team's requests are billed to another team.
pub proof fn law_team_key_injective(t1: i32, r1: FlagRequestType, t2: i32, r2: FlagRequestType)
    ensures
        team_request_key_spec(t1, r1) == team_request_key_spec(t2, r2) <==> (t1 == t2 && r1
            == r2),
{
    reveal_strlit("posthog:decide_requests:");
    reveal_strlit("posthog:local_evaluation_requests:");
    law_team_key_names_team(t1, r1);
    law_team_key_names_team(t2, r2);
    let k1 = team_request_key_spec(t1, r1);
    let k2 = team_request_key_spec(t2, r2);
    if k1 == k2 {
        if r1 != r2 {
            assert(k1[8] == k1.subrange(0, 24)[8]);
            assert(k2[8] == k2.subrange(0, 34)[8]);
            if r1 == FlagRequestType::Decide {
                assert(k1.subrange(0, 24)[8] == 'd');
                assert(k2.subrange(0, 34)[8] == 'l');
            } else {
                assert(k1.subrange(0, 34)[8] == 'l');
                assert(k2.subrange(0, 24)[8] == 'd');
                assert(k1[8] == k1.subrange(0, 34)[8]);
                assert(k2[8] == k2.subrange(0, 24)[8]);
            }
        }
    }
}

proof fn lemma_tail_split(d1: Seq<char>, n1: Seq<char>, d2: Seq<char>, n2: Seq<char>, t1: int, t2: int)
    requires
        d1 == signed_decimal(t1),
        d2 == signed_decimal(t2),
        d1 + ":"@ + n1 == d2 + ":"@ + n2,
    ensures
        d1 == d2,
        n1 == n2,
{
    reveal_strlit(":");
    lemma_no_colon(t1);
    lemma_no_colon(t2);
    let x = d1 + ":"@ + n1;
    if d1.len() < d2.len() {
        assert(x[d1.len() as int] == ':');
        assert((d2 + ":"@ + n2)[d1.len() as int] == d2[d1.len() as int]);
    } else if d2.len() < d1.len() {
        assert((d2 + ":"@ + n2)[d2.len() as int] == ':');
        assert(x[d2.len() as int] == d1[d2.len() as int]);
    }
    assert(d1 =~= x.subrange(0, d1.len() as int));
    assert(d2 =~= (d2 + ":"@ + n2).subrange(0, d2.len() as int));
    assert(n1 =~= x.subrange(d1.len() as int + 1, x.len() as int));
    assert(n2 =~= (d2 + ":"@ + n2).subrange(d2.len() as int + 1, x.len() as int));
}

/// Two per-library keys are equal only for the same team, request type and
/// library.
pub proof fn law_library_key_injective(
    t1: i32,
    r1: FlagRequestType,
    l1: Library,
    t2: i32,
    r2: FlagRequestType,
    l2: Library,
)
    ensures
        team_request_library_key_spec(t1, r1, l1) == team_request_library_key_spec(t2, r2, l2)
            <==> (t1 == t2 && r1 == r2 && l1 == l2),
{
    reveal_strlit("posthog:decide_requests:sdk:");
    reveal_strlit("posthog:local_evaluation_requests:sdk:");
    let p1 = match r1 {
        FlagRequestType::Decide => "posthog:decide_requests:sdk:"@,
        FlagRequestType::FlagDefinitions => "posthog:local_evaluation_requests:sdk:"@,
    };
    let p2 = match r2 {
        FlagRequestType::Decide => "posthog:decide_requests:sdk:"@,
        FlagRequestType::FlagDefinitions => "posthog:local_evaluation_requests:sdk:"@,
    };
    let d1 = signed_decimal(t1 as int);
    let d2 = signed_decimal(t2 as int);
    let n1 = library_name(l1);
    let n2 = library_name(l2);
    let k1 = team_request_library_key_spec(t1, r1, l1);
    let k2 = team_request_library_key_spec(t2, r2, l2);
    assert(k1 =~= p1 + (d1 + ":"@ + n1));
    assert(k2 =~= p2 + (d2 + ":"@ + n2));
    if k1 == k2 {
        lemma_prefix_split(p1, d1 + ":"@ + n1);
        lemma_prefix_split(p2, d2 + ":"@ + n2);
        if r1 != r2 {
            assert(k1[8] == k1.subrange(0, p1.len() as int)[8]);
            assert(k2[8] == k2.subrange(0, p2.len() as int)[8]);
            assert(p1[8] != p2[8]);
        } else {
            lemma_tail_split(d1, n1, d2, n2, t1 as int, t2 as int);
            law_signed_decimal_reads_back(t1 as int);
            law_signed_decimal_reads_back(t2 as int);
            law_library_names_distinct(l1, l2);
        }
    }
}

// ---------------------------------------------------------------------
// Commands.
// ---------------------------------------------------------------------

/// A count is written as itself when it fits an `i64`, else as `i64::MAX`.
pub proof fn law_clamp_count(count: u64)
    ensures
        count <= i64::MAX ==> clamp_count(count) as int == count as int,
        count > i64::MAX ==> clamp_count(count) == i64::MAX,
{
}

/// An entry whose request named a library is written as exactly two
/// increments by its count in its bucket's field: the library's hash first,
/// then the team's hash. An entry without a library is written as the
/// team's increment alone.
pub proof fn law_entry_commands(e: (AggregationKey, u64))
    ensures
        entry_commands(e).len() == if e.0.library is Some {
            2int
        } else {
            1int
        },
        entry_commands(e).last() == (
            team_request_key_spec(e.0.team_id, e.0.request_type),
            decimal_digits(e.0.bucket as nat),
            clamp_count(e.1),
        ),
        e.0.library matches Some(l) ==> entry_commands(e)[0] == (
            team_request_library_key_spec(e.0.team_id, e.0.request_type, l),
            decimal_digits(e.0.bucket as nat),
            clamp_count(e.1),
        ),
{
}

/// The commands of consecutive runs of entries are the concatenation of
/// their commands: nothing is dropped, duplicated or reordered at a run
/// boundary.
pub proof fn law_commands_concatenate(a: Seq<(AggregationKey, u64)>, b: Seq<(AggregationKey, u64)>)
    ensures
        commands_for(a + b) == commands_for(a) + commands_for(b),
    decreases b.len(),
{
    if b.len() == 0 {
        assert(a + b =~= a);
        assert(commands_for(a) + commands_for(b) =~= commands_for(a));
    } else {
        law_commands_concatenate(a, b.drop_last());
        assert((a + b).drop_last() =~= a + b.drop_last());
        assert((a + b).last() == b.last());
        assert(commands_for(a + b) =~= commands_for(a) + commands_for(b));
    }
}

// ---------------------------------------------------------------------
// Configuration, staleness, jitter, flusher.
// ---------------------------------------------------------------------

/// `validate` accepts exactly the configurations whose four knobs are all
/// non-zero; nothing else is checked.
pub proof fn law_validate_accepts_nonzero_knobs(c: BillingAggregatorConfig)
    ensures
        config_error(c) is None <==> (duration_nanos(c.flush_interval) != 0
            && c.max_pending_entries != 0 && c.per_flush_batch_size != 0 && duration_nanos(
            c.shutdown_flush_timeout,
        ) != 0),
{
}

/// After a successful flush at `last_ms`, the staleness at `now_ms` is the
/// time elapsed since then; before the first flush, or when the clock
/// stepped backwards, it is zero.
pub proof fn law_staleness_is_elapsed_time(last_ms: u64, now_ms: u64)
    ensures
        last_ms > 0 && now_ms >= last_ms ==> staleness_ms(last_ms, now_ms) == now_ms - last_ms,
        last_ms == 0 || now_ms < last_ms ==> staleness_ms(last_ms, now_ms) == 0,
{
}

/// Staleness never goes down as time passes.
pub proof fn law_staleness_monotone(last_ms: u64, now1: u64, now2: u64)
    requires
        now1 <= now2,
    ensures
        staleness_ms(last_ms, now1) <= staleness_ms(last_ms, now2),
{
}

/// The jitter bound is a tenth of the interval in whole milliseconds when
/// that lies in `1..=1000`, one below that, and a thousand above.
pub proof fn law_jitter_bound(interval_nanos: nat)
    ensures
        ({
            let tenth = interval_nanos / 1_000_000 / 10;
            &&& 1 <= tenth <= 1000 ==> max_jitter_ms_spec(interval_nanos) == tenth
            &&& tenth == 0 ==> max_jitter_ms_spec(interval_nanos) == 1
            &&& 1000 < tenth < 0x1_0000_0000_0000_0000 ==> max_jitter_ms_spec(interval_nanos)
                == 1000
        }),
{
}

/// A tick while running flushes in bail mode and keeps running; a shutdown
/// signal in any live phase flushes once in best-effort mode and stops;
/// once stopped nothing is flushed again.
pub proof fn law_flusher_policies(phase: FlusherPhase, event: FlusherEvent)
    ensures
        flusher_transition(FlusherPhase::Ticking, FlusherEvent::Tick) == (FlusherStep {
            next: FlusherPhase::Ticking,
            flush: Some(FlushPolicy::BailOnError),
        }),
        phase != FlusherPhase::Stopped ==> flusher_transition(phase, FlusherEvent::ShutdownSignal)
            == (FlusherStep { next: FlusherPhase::Stopped, flush: Some(FlushPolicy::BestEffort) }),
        flusher_transition(FlusherPhase::Stopped, event).flush is None,
        flusher_transition(FlusherPhase::Stopped, event).next == FlusherPhase::Stopped,
        flusher_transition(FlusherPhase::AwaitingJitter, FlusherEvent::JitterElapsed) == (
        FlusherStep { next: FlusherPhase::Ticking, flush: None }),
{
}


// ---------------------------------------------------------------------
// Arithmetic and chunk boundaries.
// ---------------------------------------------------------------------

/// Saturation keeps values that fit a `u64` and clamps larger ones to
/// `u64::MAX`.
pub proof fn law_saturate(n: int)
    ensures
        0 <= n <= u64::MAX ==> saturate(n) as int == n,
        n > u64::MAX ==> saturate(n) == u64::MAX,
        n >= 0 ==> saturate(n) <= n,
{
}

/// Wrapping arithmetic is arithmetic modulo 2^64, like an atomic counter.
pub proof fn law_wrapping_is_modular(a: u64, b: u64)
    ensures
        wrapped_add(a, b) as int == (a + b) % 0x1_0000_0000_0000_0000,
        wrapped_sub(a, b) as int == (a - b) % 0x1_0000_0000_0000_0000,
{
    if a + b > u64::MAX {
        vstd::arithmetic::div_mod::lemma_fundamental_div_mod_converse(
            a + b,
            0x1_0000_0000_0000_0000,
            1,
            a + b - 0x1_0000_0000_0000_0000,
        );
    } else {
        vstd::arithmetic::div_mod::lemma_fundamental_div_mod_converse(
            a + b,
            0x1_0000_0000_0000_0000,
            0,
            a + b,
        );
    }
    if a < b {
        vstd::arithmetic::div_mod::lemma_fundamental_div_mod_converse(
            a - b,
            0x1_0000_0000_0000_0000,
            -1,
            a - b + 0x1_0000_0000_0000_0000,
        );
    } else {
        vstd::arithmetic::div_mod::lemma_fundamental_div_mod_converse(
            a - b,
            0x1_0000_0000_0000_0000,
            0,
            a - b,
        );
    }
}

/// A request is counted under the key made of exactly its own team,
/// request type, library and bucket.
pub proof fn law_record_key_fields(
    team_id: i32,
    request_type: FlagRequestType,
    library: Option<Library>,
    bucket: u64,
)
    ensures
        record_key(team_id, request_type, library, bucket).team_id == team_id,
        record_key(team_id, request_type, library, bucket).request_type == request_type,
        record_key(team_id, request_type, library, bucket).library == library,
        record_key(team_id, request_type, library, bucket).bucket == bucket,
{
}

/// The end of a chunk is determined by where it starts: chunking is
/// deterministic.
pub proof fn law_chunk_end_unique(
    s: Seq<(AggregationKey, u64)>,
    start: int,
    e1: int,
    e2: int,
    batch: int,
)
    requires
        is_chunk_end(s, start, e1, batch),
        is_chunk_end(s, start, e2, batch),
    ensures
        e1 == e2,
{
    if e1 < e2 {
        assert(commands_for(s.subrange(start, e1)).len() < batch);
    } else if e2 < e1 {
        assert(commands_for(s.subrange(start, e2)).len() < batch);
    }
}

/// The clamped entries of a run are those whose count exceeds `i64::MAX`:
/// none when every count fits, and at most one per entry.
pub proof fn law_clamped_entries(s: Seq<(AggregationKey, u64)>)
    ensures
        clamped_entries(s) <= s.len(),
        (forall|i: int| 0 <= i < s.len() ==> #[trigger] s[i].1 <= i64::MAX) ==> clamped_entries(s)
            == 0,
        (forall|i: int| 0 <= i < s.len() ==> #[trigger] s[i].1 > i64::MAX) ==> clamped_entries(s)
            == s.len(),
    decreases s.len(),
{
    if s.len() > 0 {
        let t = s.drop_last();
        law_clamped_entries(t);
        if forall|i: int| 0 <= i < s.len() ==> #[trigger] s[i].1 <= i64::MAX {
            assert forall|i: int| 0 <= i < t.len() implies #[trigger] t[i].1 <= i64::MAX by {
                assert(t[i] == s[i]);
            }
            assert(s[s.len() - 1].1 <= i64::MAX);
        }
        if forall|i: int| 0 <= i < s.len() ==> #[trigger] s[i].1 > i64::MAX {
            assert forall|i: int| 0 <= i < t.len() implies #[trigger] t[i].1 > i64::MAX by {
                assert(t[i] == s[i]);
            }
            assert(s[s.len() - 1].1 > i64::MAX);
        }
    }
}

} // verus!
