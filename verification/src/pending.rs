//! The map of counts recorded since the last flush.

use vstd::prelude::*;
use vstd::std_specs::iter::IteratorSpec;
use std::collections::HashMap;
use crate::key::{AggregationKey, key_code, is_key_code, lemma_key_code_roundtrip};
use crate::counts::{seq_total, map_total, saturate, enumerates, coded, lemma_map_total, lemma_coded_total, lemma_seq_total_push};

verus! {

broadcast use vstd::std_specs::hash::group_hash_axioms;

/// What `record` did with one request.
#[derive(Debug, Clone, Copy, PartialEq, Eq, Structural)]
pub enum RecordOutcome {
    /// The key's count went up by one (a new key starts at one).
    Counted,
    /// The key was new and the map was at its cap: the request was dropped.
    Capped,
    /// The key's count was already `u64::MAX` and stays there.
    Saturated,
}

/// The map after recording one request under packed key `c` with a cap of
/// `cap` distinct keys.
pub open spec fn recorded(m: Map<u128, u64>, c: u128, cap: int) -> Map<u128, u64> {
    if m.contains_key(c) {
        if m[c] == u64::MAX {
            m
        } else {
            m.insert(c, (m[c] + 1) as u64)
        }
    } else if m.len() >= cap {
        m
    } else {
        m.insert(c, 1)
    }
}

pub open spec fn record_outcome(m: Map<u128, u64>, c: u128, cap: int) -> RecordOutcome {
    if m.contains_key(c) {
        if m[c] == u64::MAX {
            RecordOutcome::Saturated
        } else {
            RecordOutcome::Counted
        }
    } else if m.len() >= cap {
        RecordOutcome::Capped
    } else {
        RecordOutcome::Counted
    }
}

/// Adds `count` to the count of `c`, saturating at `u64::MAX`; a missing
/// key starts from zero.
pub open spec fn merged(m: Map<u128, u64>, c: u128, count: u64) -> Map<u128, u64> {
    if m.contains_key(c) {
        m.insert(c, saturate(m[c] + count))
    } else {
        m.insert(c, count)
    }
}

/// Pointwise saturating sum of two count maps.
pub open spec fn merge_maps(a: Map<u128, u64>, b: Map<u128, u64>) -> Map<u128, u64> {
    Map::new(
        |c: u128| a.contains_key(c) || b.contains_key(c),
        |c: u128|
            if a.contains_key(c) && b.contains_key(c) {
                saturate(a[c] + b[c])
            } else if a.contains_key(c) {
                a[c]
            } else {
                b[c]
            },
    )
}

/// The map of packed keys to counts that a list of entries describes.
pub open spec fn entries_map(s: Seq<(AggregationKey, u64)>) -> Map<u128, u64>
    decreases s.len(),
{
    if s.len() == 0 {
        Map::empty()
    } else {
        entries_map(s.drop_last()).insert(key_code(s.last().0), s.last().1)
    }
}

/// No two entries share a key.
pub open spec fn distinct_keys(s: Seq<(AggregationKey, u64)>) -> bool {
    forall|i: int, j: int| 0 <= i < j < s.len() ==> #[trigger] s[i].0 != #[trigger] s[j].0
}

pub proof fn lemma_entries_map_lookup(s: Seq<(AggregationKey, u64)>)
    requires
        distinct_keys(s),
    ensures
        forall|c: u128| #[trigger]
            entries_map(s).contains_key(c) <==> exists|i: int|
                0 <= i < s.len() && key_code(s[i].0) == c,
        forall|i: int| 0 <= i < s.len() ==> #[trigger] entries_map(s)[key_code(s[i].0)] == s[i].1,
        entries_map(s).dom().finite(),
        entries_map(s).len() == s.len(),
    decreases s.len(),
{
    if s.len() > 0 {
        let t = s.drop_last();
        assert(distinct_keys(t));
        lemma_entries_map_lookup(t);
        let last = s.last();
        assert forall|i: int| 0 <= i < t.len() implies key_code(t[i].0) != key_code(last.0) by {
            crate::key::lemma_key_code_injective(t[i].0, last.0);
            assert(s[i].0 != s[s.len() - 1].0);
        }
        assert forall|c: u128| #[trigger]
            entries_map(s).contains_key(c) implies exists|i: int|
                0 <= i < s.len() && key_code(s[i].0) == c by {
            if c != key_code(last.0) {
                let i = choose|i: int| 0 <= i < t.len() && key_code(t[i].0) == c;
                assert(key_code(s[i].0) == c);
            } else {
                assert(key_code(s[s.len() - 1].0) == c);
            }
        }
        assert forall|i: int| 0 <= i < s.len() implies #[trigger] entries_map(s)[key_code(
            s[i].0,
        )] == s[i].1 by {
            if i < t.len() {
                assert(t[i] == s[i]);
            }
        }
        assert forall|c: u128|
            (exists|i: int| 0 <= i < s.len() && key_code(s[i].0) == c) implies #[trigger]
            entries_map(s).contains_key(c) by {
            let i = choose|i: int| 0 <= i < s.len() && key_code(s[i].0) == c;
            if i < t.len() {
                assert(key_code(t[i].0) == c);
            }
        }
        assert(!entries_map(t).contains_key(key_code(last.0)));
    }
}

/// Pending counts: how many requests were recorded under each key since
/// the last flush drained the map. Keys are held in packed form.
pub struct PendingCounts {
    map: HashMap<u128, u64>,
}

impl View for PendingCounts {
    type V = Map<u128, u64>;

    closed spec fn view(&self) -> Map<u128, u64> {
        self.map@
    }
}

impl PendingCounts {
    /// Every key held is the packed form of an aggregation key.
    pub open spec fn wf(&self) -> bool {
        forall|c: u128| #[trigger] self@.contains_key(c) ==> is_key_code(c)
    }

    pub fn new() -> (p: PendingCounts)
        ensures
            p@ == Map::<u128, u64>::empty(),
            p.wf(),
    {
        PendingCounts { map: HashMap::new() }
    }

    /// Number of distinct keys.
    pub fn len(&self) -> (n: usize)
        ensures
            n == self@.len(),
    {
        self.map.len()
    }

    pub fn is_empty(&self) -> (b: bool)
        ensures
            b == (self@.len() == 0),
    {
        self.map.len() == 0
    }

    /// The count recorded under `key`, if any.
    pub fn get(&self, key: &AggregationKey) -> (r: Option<u64>)
        ensures
            r == (if self@.contains_key(key_code(*key)) {
                Some(self@[key_code(*key)])
            } else {
                None
            }),
    {
        let c = key.code();
        match self.map.get(&c) {
            Some(v) => Some(*v),
            None => None,
        }
    }

    /// Sets the count of `key`, replacing what was there.
    pub fn insert(&mut self, key: AggregationKey, count: u64)
        requires
            old(self).wf(),
        ensures
            final(self)@ == old(self)@.insert(key_code(key), count),
            final(self).wf(),
    {
        proof {
            lemma_key_code_roundtrip(key);
        }
        let c = key.code();
        self.map.insert(c, count);
        assert forall|d: u128| #[trigger] self@.contains_key(d) implies is_key_code(d) by {
            if d != c {
                assert(old(self)@.contains_key(d));
            }
        }
    }

    /// Counts one request under `key`. An existing key is always
    /// incremented (saturating at `u64::MAX`); a new key is added with a
    /// count of one unless the map already holds `cap` keys, in which case
    /// the request is dropped.
    pub fn record(&mut self, key: AggregationKey, cap: usize) -> (o: RecordOutcome)
        requires
            old(self).wf(),
        ensures
            final(self)@ == recorded(old(self)@, key_code(key), cap as int),
            o == record_outcome(old(self)@, key_code(key), cap as int),
            final(self).wf(),
    {
        proof {
            lemma_key_code_roundtrip(key);
        }
        let c = key.code();
        match self.map.get(&c) {
            Some(v) => {
                let current = *v;
                match current.checked_add(1) {
                    Some(next) => {
                        self.map.insert(c, next);
                        RecordOutcome::Counted
                    },
                    None => RecordOutcome::Saturated,
                }
            },
            None => {
                if self.map.len() >= cap {
                    RecordOutcome::Capped
                } else {
                    self.map.insert(c, 1);
                    RecordOutcome::Counted
                }
            },
        }
    }

    /// Adds `count` to `key`, saturating at `u64::MAX`; a new key starts
    /// at `count`. No cap applies.
    pub fn merge_count(&mut self, key: AggregationKey, count: u64)
        requires
            old(self).wf(),
        ensures
            final(self)@ == merged(old(self)@, key_code(key), count),
            final(self).wf(),
    {
        proof {
            lemma_key_code_roundtrip(key);
        }
        let c = key.code();
        match self.map.get(&c) {
            Some(v) => {
                let sum = v.saturating_add(count);
                self.map.insert(c, sum);
            },
            None => {
                self.map.insert(c, count);
            },
        }
        assert forall|d: u128| #[trigger] self@.contains_key(d) implies is_key_code(d) by {
            if d != c {
                assert(old(self)@.contains_key(d));
            }
        }
    }

    /// Merges a list of entries with distinct keys into the map.
    pub fn merge_entries(&mut self, entries: &Vec<(AggregationKey, u64)>)
        requires
            old(self).wf(),
            distinct_keys(entries@),
        ensures
            final(self)@ == merge_maps(old(self)@, entries_map(entries@)),
            final(self).wf(),
    {
        let ghost start = self@;
        let mut i: usize = 0;
        assert(entries@.take(0) =~= Seq::<(AggregationKey, u64)>::empty());
        assert(merge_maps(start, entries_map(entries@.take(0))) =~= start);
        while i < entries.len()
            invariant
                0 <= i <= entries@.len(),
                distinct_keys(entries@),
                self.wf(),
                self@ == merge_maps(start, entries_map(entries@.take(i as int))),
            decreases entries@.len() - i,
        {
            let (key, count) = entries[i];
            let ghost prefix = entries@.take(i as int);
            let ghost next = entries@.take(i + 1);
            proof {
                assert(next.drop_last() =~= prefix);
                assert(next.last() == (key, count));
                assert(distinct_keys(prefix));
                lemma_entries_map_lookup(prefix);
                assert forall|j: int| 0 <= j < prefix.len() implies key_code(prefix[j].0)
                    != key_code(key) by {
                    crate::key::lemma_key_code_injective(prefix[j].0, key);
                    assert(entries@[j].0 != entries@[i as int].0);
                }
                assert(!entries_map(prefix).contains_key(key_code(key)));
            }
            self.merge_count(key, count);
            proof {
                assert(self@ =~= merge_maps(start, entries_map(next)));
            }
            i = i + 1;
        }
        assert(entries@.take(entries@.len() as int) =~= entries@);
    }

    /// Moves every entry of `other` into this map, adding counts
    /// (saturating) where both hold a key.
    pub fn absorb(&mut self, other: PendingCounts)
        requires
            old(self).wf(),
            other.wf(),
        ensures
            final(self)@ == merge_maps(old(self)@, other@),
            final(self).wf(),
    {
        let entries = other.entries();
        proof {
            lemma_entries_map_lookup(entries@);
        }
        self.merge_entries(&entries);
        proof {
            assert(entries_map(entries@) =~= other@) by {
                assert forall|c: u128| #[trigger] other@.contains_key(c) implies entries_map(
                    entries@,
                ).contains_key(c) && entries_map(entries@)[c] == other@[c] by {
                    let i = choose|i: int|
                        0 <= i < coded(entries@).len() && coded(entries@)[i].0 == c;
                    assert(key_code(entries@[i].0) == c);
                }
                assert forall|c: u128| #[trigger] entries_map(entries@).contains_key(c) implies other@.contains_key(c) by {
                    let i = choose|i: int| 0 <= i < entries@.len() && key_code(entries@[i].0) == c;
                    assert(coded(entries@)[i].0 == c);
                }
            }
        }
    }

    /// Takes every entry out, leaving this map empty.
    pub fn take(&mut self) -> (taken: PendingCounts)
        requires
            old(self).wf(),
        ensures
            taken@ == old(self)@,
            taken.wf(),
            final(self)@ == Map::<u128, u64>::empty(),
            final(self).wf(),
    {
        let mut map: HashMap<u128, u64> = HashMap::new();
        std::mem::swap(&mut map, &mut self.map);
        PendingCounts { map }
    }

    /// The entries, in the map's iteration order, with keys unpacked.
    pub fn entries(&self) -> (v: Vec<(AggregationKey, u64)>)
        requires
            self.wf(),
        ensures
            enumerates(self@, coded(v@)),
            distinct_keys(v@),
            v@.len() == self@.len(),
    {
        let mut v: Vec<(AggregationKey, u64)> = Vec::new();
        let ghost pairs = vstd::std_specs::hash::spec_hash_map_iter(&self.map).remaining();
        for p in it: self.map.iter()
            invariant
                self.wf(),
                it.seq() == pairs,
                v@.len() == it.index(),
                pairs.len() == self@.len(),
                forall|k: int|
                    0 <= k < pairs.len() ==> #[trigger] self@.contains_key(*pairs[k].0)
                        && self@[*pairs[k].0] == *pairs[k].1,
                forall|k: int|
                    0 <= k < v@.len() ==> key_code((#[trigger] v@[k]).0) == *pairs[k].0 && v@[k].1
                        == *pairs[k].1,
        {
            let c: u128 = *p.0;
            let count: u64 = *p.1;
            proof {
                assert(p == pairs[it.index()]);
                assert(self@.contains_key(c));
            }
            let key = AggregationKey::from_code(c);
            let ghost before = v@;
            v.push((key, count));
            proof {
                assert forall|k: int| 0 <= k < v@.len() implies key_code((#[trigger] v@[k]).0)
                    == *pairs[k].0 && v@[k].1 == *pairs[k].1 by {
                    if k < before.len() {
                        assert(v@[k] == before[k]);
                    }
                }
            }
        }
        proof {
            let s = coded(v@);
            assert forall|k: int| 0 <= k < s.len() implies s[k] == (*pairs[k].0, *pairs[k].1) by {
                assert(v@[k].0 == v@[k].0);
            }
            assert(s =~= pairs.unref());
            assert(pairs.no_duplicates());
            assert forall|c: u128| #[trigger] self@.contains_key(c) implies exists|i: int|
                0 <= i < s.len() && s[i].0 == c by {
                assert(pairs.unref().to_set().contains((c, self@[c])));
                let i = choose|i: int| 0 <= i < s.len() && s[i] == (c, self@[c]);
            }
            assert forall|i: int, j: int| 0 <= i < j < s.len() implies #[trigger] s[i].0
                != #[trigger] s[j].0 by {
                if s[i].0 == s[j].0 {
                    assert(self@.contains_key(*pairs[i].0));
                    assert(self@.contains_key(*pairs[j].0));
                    assert(s[i] == s[j]);
                    assert(pairs[i] == pairs[j]);
                }
            }
            assert forall|i: int, j: int| 0 <= i < j < v@.len() implies #[trigger] v@[i].0
                != #[trigger] v@[j].0 by {
                assert(s[i].0 != s[j].0);
            }
        }
        v
    }

    /// The total of all counts, saturating at `u64::MAX`.
    pub fn total(&self) -> (t: u64)
        requires
            self.wf(),
        ensures
            t == saturate(map_total(self@) as int),
    {
        let entries = self.entries();
        let t = saturating_sum(&entries);
        proof {
            lemma_map_total(self@, coded(entries@));
            lemma_coded_total(entries@);
        }
        t
    }
}

/// The saturating sum of the counts of `entries`.
pub fn saturating_sum(entries: &Vec<(AggregationKey, u64)>) -> (t: u64)
    ensures
        t == saturate(seq_total(entries@) as int),
{
    let mut t: u64 = 0;
    let mut i: usize = 0;
    while i < entries.len()
        invariant
            0 <= i <= entries@.len(),
            t == saturate(seq_total(entries@.take(i as int)) as int),
        decreases entries@.len() - i,
    {
        proof {
            assert(entries@.take(i + 1) =~= entries@.take(i as int).push(entries@[i as int]));
            lemma_seq_total_push(entries@.take(i as int), entries@[i as int]);
        }
        t = t.saturating_add(entries[i].1);
        i = i + 1;
    }
    assert(entries@.take(entries@.len() as int) =~= entries@);
    t
}

} // verus!
