//! Sums of request counts, and the saturating arithmetic used on them.

use vstd::prelude::*;
use vstd::seq_lib::{lemma_fold_left_permutation, commutative_foldl};
use crate::key::{AggregationKey, key_code};

verus! {

broadcast use vstd::seq_lib::group_to_multiset_ensures;

/// `n` clamped to the range of `u64`.
pub open spec fn saturate(n: int) -> u64 {
    if n > u64::MAX {
        u64::MAX
    } else if n < 0 {
        0
    } else {
        n as u64
    }
}

/// `a + b` modulo 2^64, as `u64::wrapping_add` computes it.
pub open spec fn wrapped_add(a: u64, b: u64) -> u64 {
    if a + b > u64::MAX {
        (a + b - 0x1_0000_0000_0000_0000) as u64
    } else {
        (a + b) as u64
    }
}

/// `a - b` modulo 2^64, as `u64::wrapping_sub` computes it.
pub open spec fn wrapped_sub(a: u64, b: u64) -> u64 {
    if a < b {
        (a - b + 0x1_0000_0000_0000_0000) as u64
    } else {
        (a - b) as u64
    }
}

/// The step of a count sum: add the count of one entry.
pub open spec fn add_count<K>() -> spec_fn(nat, (K, u64)) -> nat {
    |acc: nat, e: (K, u64)| acc + (e.1 as nat)
}

/// The exact (unbounded) sum of the counts of a sequence of entries.
pub open spec fn seq_total<K>(s: Seq<(K, u64)>) -> nat {
    s.fold_left(0nat, add_count::<K>())
}

pub proof fn lemma_seq_total_push<K>(s: Seq<(K, u64)>, e: (K, u64))
    ensures
        seq_total(s.push(e)) == seq_total(s) + e.1,
{
    assert(s.push(e).drop_last() =~= s);
}

pub proof fn lemma_seq_total_append<K>(a: Seq<(K, u64)>, b: Seq<(K, u64)>)
    ensures
        seq_total(a + b) == seq_total(a) + seq_total(b),
    decreases b.len(),
{
    if b.len() == 0 {
        assert(a + b =~= a);
    } else {
        lemma_seq_total_append(a, b.drop_last());
        assert((a + b).drop_last() =~= a + b.drop_last());
    }
}

/// The sum of `s[lo..hi]` split at `mid`.
pub proof fn lemma_seq_total_split<K>(s: Seq<(K, u64)>, lo: int, mid: int, hi: int)
    requires
        0 <= lo <= mid <= hi <= s.len(),
    ensures
        seq_total(s.subrange(lo, hi)) == seq_total(s.subrange(lo, mid)) + seq_total(
            s.subrange(mid, hi),
        ),
{
    assert(s.subrange(lo, hi) =~= s.subrange(lo, mid) + s.subrange(mid, hi));
    lemma_seq_total_append(s.subrange(lo, mid), s.subrange(mid, hi));
}

/// The packed keys and counts of a sequence of entries.
pub open spec fn coded(s: Seq<(AggregationKey, u64)>) -> Seq<(u128, u64)> {
    s.map_values(|e: (AggregationKey, u64)| (key_code(e.0), e.1))
}

/// `s` lists the entries of `m`, each exactly once.
pub open spec fn enumerates(m: Map<u128, u64>, s: Seq<(u128, u64)>) -> bool {
    &&& forall|i: int| 0 <= i < s.len() ==> #[trigger] m.contains_key(s[i].0) && m[s[i].0] == s[i].1
    &&& forall|c: u128| #[trigger] m.contains_key(c) ==> exists|i: int| 0 <= i < s.len() && s[i].0 == c
    &&& forall|i: int, j: int| 0 <= i < j < s.len() ==> #[trigger] s[i].0 != #[trigger] s[j].0
}

/// The exact sum of the counts held in a map: the count sum of any
/// sequence that lists its entries once each.
pub open spec fn map_total(m: Map<u128, u64>) -> nat {
    seq_total(choose|s: Seq<(u128, u64)>| enumerates(m, s))
}

proof fn lemma_enumeration_no_duplicates(m: Map<u128, u64>, s: Seq<(u128, u64)>)
    requires
        enumerates(m, s),
    ensures
        s.no_duplicates(),
{
    assert forall|i: int, j: int| 0 <= i < s.len() && 0 <= j < s.len() && i != j implies s[i]
        != s[j] by {
        if i < j {
            assert(s[i].0 != s[j].0);
        } else {
            assert(s[j].0 != s[i].0);
        }
    }
}

proof fn lemma_enumeration_multiset(m: Map<u128, u64>, s1: Seq<(u128, u64)>, s2: Seq<(u128, u64)>)
    requires
        enumerates(m, s1),
        enumerates(m, s2),
    ensures
        s1.to_multiset() =~= s2.to_multiset(),
{
    lemma_enumeration_no_duplicates(m, s1);
    lemma_enumeration_no_duplicates(m, s2);
    s1.lemma_multiset_has_no_duplicates();
    s2.lemma_multiset_has_no_duplicates();
    assert forall|x: (u128, u64)| s1.to_multiset().count(x) == s2.to_multiset().count(x) by {
        if s1.contains(x) {
            let i = choose|i: int| 0 <= i < s1.len() && s1[i] == x;
            assert(m.contains_key(s1[i].0));
            let j = choose|j: int| 0 <= j < s2.len() && s2[j].0 == x.0;
            assert(s2[j] == x);
            assert(s2.contains(x));
        } else if s2.contains(x) {
            let j = choose|j: int| 0 <= j < s2.len() && s2[j] == x;
            assert(m.contains_key(s2[j].0));
            let i = choose|i: int| 0 <= i < s1.len() && s1[i].0 == x.0;
            assert(s1[i] == x);
        }
    }
}

/// Any two listings of the same map have the same count sum.
pub proof fn lemma_enumeration_total(m: Map<u128, u64>, s1: Seq<(u128, u64)>, s2: Seq<(u128, u64)>)
    requires
        enumerates(m, s1),
        enumerates(m, s2),
    ensures
        seq_total(s1) == seq_total(s2),
{
    lemma_enumeration_multiset(m, s1, s2);
    let f = add_count::<u128>();
    assert(commutative_foldl(f));
    lemma_fold_left_permutation(s1, s2, f, 0nat);
}

/// A listing of a map sums to the map's total.
pub proof fn lemma_map_total(m: Map<u128, u64>, s: Seq<(u128, u64)>)
    requires
        enumerates(m, s),
    ensures
        map_total(m) == seq_total(s),
{
    let t = choose|t: Seq<(u128, u64)>| enumerates(m, t);
    lemma_enumeration_total(m, s, t);
}

/// Packing the keys does not change the counts.
pub proof fn lemma_coded_total(s: Seq<(AggregationKey, u64)>)
    ensures
        seq_total(coded(s)) == seq_total(s),
    decreases s.len(),
{
    if s.len() > 0 {
        lemma_coded_total(s.drop_last());
        assert(coded(s).drop_last() =~= coded(s.drop_last()));
    }
}

} // verus!
