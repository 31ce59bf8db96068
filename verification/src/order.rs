//! Ascending sequences of order keys, and the search that keeps them so.
use crate::ieee::{is_key, INFINITY};
use std::collections::VecDeque;
use vstd::prelude::*;
use vstd::relations::{sorted_by, total_ordering};
use vstd::seq_lib::{
    lemma_sorted_unique, to_multiset_build, to_multiset_contains, to_multiset_insert,
};

verus! {

/// The order of the keys, as a relation.
pub open spec fn key_leq() -> spec_fn(i64, i64) -> bool {
    |a: i64, b: i64| a <= b
}

/// Whether no key of `s` is followed by a smaller one.
pub open spec fn ascending(s: Seq<i64>) -> bool {
    forall|i: int, j: int| 0 <= i < j < s.len() ==> s[i] <= s[j]
}

/// The keys of `s` in ascending order.
pub open spec fn sorted_of(s: Seq<i64>) -> Seq<i64> {
    s.sort_by(key_leq())
}

/// The first place in `s` whose key is not below `key`: the number of keys
/// of `s` that are below it, where `s` is ascending.
pub open spec fn lower_bound_of(s: Seq<i64>, key: i64) -> int
    decreases s.len(),
{
    if s.len() == 0 {
        0
    } else if s.last() < key {
        s.len() as int
    } else {
        lower_bound_of(s.drop_last(), key)
    }
}

/// What pins `lower_bound_of` down on an ascending sequence: every key
/// before that place is below `key`, and none from it on is.
pub proof fn lemma_lower_bound(s: Seq<i64>, key: i64)
    requires
        ascending(s),
    ensures
        0 <= lower_bound_of(s, key) <= s.len(),
        forall|i: int| 0 <= i < lower_bound_of(s, key) ==> s[i] < key,
        forall|i: int| lower_bound_of(s, key) <= i < s.len() ==> key <= s[i],
    decreases s.len(),
{
    let p = lower_bound_of(s, key);
    if s.len() == 0 {
    } else if s.last() < key {
        assert forall|i: int| 0 <= i < p implies s[i] < key by {
            if i < s.len() - 1 {
                assert(s[i] <= s[s.len() - 1]);
            }
        }
    } else {
        let t = s.drop_last();
        assert(ascending(t)) by {
            assert forall|i: int, j: int| 0 <= i < j < t.len() implies t[i] <= t[j] by {
                assert(s[i] <= s[j]);
            }
        }
        lemma_lower_bound(t, key);
        assert forall|i: int| 0 <= i < p implies s[i] < key by {
            assert(t[i] < key);
        }
        assert forall|i: int| p <= i < s.len() implies key <= s[i] by {
            if i < t.len() {
                assert(key <= t[i]);
            }
        }
    }
}

/// The place with the two properties of `lemma_lower_bound` is the only one.
pub proof fn lemma_lower_bound_unique(s: Seq<i64>, key: i64, pos: int)
    requires
        ascending(s),
        0 <= pos <= s.len(),
        forall|i: int| 0 <= i < pos ==> s[i] < key,
        forall|i: int| pos <= i < s.len() ==> key <= s[i],
    ensures
        pos == lower_bound_of(s, key),
{
    lemma_lower_bound(s, key);
    let p = lower_bound_of(s, key);
    if p < pos {
        assert(s[p] < key);
    } else if pos < p {
        assert(s[pos] < key);
    }
}

/// The order of the keys is a total order.
pub proof fn lemma_key_order_total()
    ensures
        total_ordering(key_leq()),
{
    let leq = key_leq();
    assert(vstd::relations::reflexive(leq));
    assert(vstd::relations::antisymmetric(leq));
    assert(vstd::relations::transitive(leq));
    assert(vstd::relations::strongly_connected(leq));
}

/// An ascending sequence is the sorted form of every sequence that holds
/// the same keys, each as often.
pub proof fn lemma_ascending_is_sorted_of(s: Seq<i64>, t: Seq<i64>)
    requires
        ascending(s),
        s.to_multiset() == t.to_multiset(),
    ensures
        s == sorted_of(t),
{
    let leq = key_leq();
    lemma_key_order_total();
    t.lemma_sort_by_ensures(leq);
    assert(sorted_by(s, leq)) by {
        assert forall|i: int, j: int| 0 <= i < j < s.len() implies #[trigger] leq(s[i], s[j]) by {
            assert(s[i] <= s[j]);
        }
    }
    lemma_sorted_unique(s, t.sort_by(leq), leq);
}

/// The sorted form is ascending and holds the same keys.
pub proof fn lemma_sorted_of(t: Seq<i64>)
    ensures
        ascending(sorted_of(t)),
        sorted_of(t).to_multiset() == t.to_multiset(),
        sorted_of(t).len() == t.len(),
{
    let leq = key_leq();
    lemma_key_order_total();
    t.lemma_sort_by_ensures(leq);
    let s = sorted_of(t);
    assert forall|i: int, j: int| 0 <= i < j < s.len() implies s[i] <= s[j] by {
        assert(leq(s[i], s[j]));
    }
    vstd::seq_lib::to_multiset_len(s);
    vstd::seq_lib::to_multiset_len(t);
}

/// Whether every key of `s` lies between `lo` and `hi`.
pub open spec fn within(s: Seq<i64>, lo: int, hi: int) -> bool {
    forall|i: int| 0 <= i < s.len() ==> lo <= #[trigger] s[i] <= hi
}

/// Keys that are within a range stay so however they are arranged.
pub proof fn lemma_within_same_keys(s: Seq<i64>, t: Seq<i64>, lo: int, hi: int)
    requires
        within(s, lo, hi),
        s.to_multiset() == t.to_multiset(),
    ensures
        within(t, lo, hi),
{
    assert forall|i: int| 0 <= i < t.len() implies lo <= #[trigger] t[i] <= hi by {
        to_multiset_contains(t, t[i]);
        to_multiset_contains(s, t[i]);
        assert(t.contains(t[i]));
        let j = choose|j: int| 0 <= j < s.len() && s[j] == t[i];
        assert(lo <= s[j] <= hi);
    }
}

/// A sequence that holds the same keys as one of order keys holds order
/// keys only.
pub proof fn lemma_keys_stay_keys(s: Seq<i64>, t: Seq<i64>)
    requires
        forall|i: int| 0 <= i < s.len() ==> is_key(#[trigger] s[i] as int),
        s.to_multiset() == t.to_multiset(),
    ensures
        forall|i: int| 0 <= i < t.len() ==> is_key(#[trigger] t[i] as int),
{
    let bound = INFINITY as int;
    assert(within(s, -bound, bound)) by {
        assert forall|i: int| 0 <= i < s.len() implies -bound <= #[trigger] s[i] <= bound by {
            assert(is_key(s[i] as int));
        }
    }
    lemma_within_same_keys(s, t, -bound, bound);
    assert forall|i: int| 0 <= i < t.len() implies is_key(#[trigger] t[i] as int) by {
        assert(-bound <= t[i] <= bound);
    }
}

/// Taking one key out of an ascending sequence leaves it ascending.
pub proof fn lemma_remove_keeps_ascending(s: Seq<i64>, at: int)
    requires
        ascending(s),
        0 <= at < s.len(),
    ensures
        ascending(s.remove(at)),
{
    let t = s.remove(at);
    assert forall|i: int, j: int| 0 <= i < j < t.len() implies t[i] <= t[j] by {
        let a = if i < at { i } else { i + 1 };
        let b = if j < at { j } else { j + 1 };
        assert(s[a] <= s[b]);
    }
}

/// Putting a key at its lower bound leaves an ascending sequence ascending.
pub proof fn lemma_insert_keeps_ascending(s: Seq<i64>, key: i64)
    requires
        ascending(s),
    ensures
        ascending(s.insert(lower_bound_of(s, key), key)),
{
    lemma_lower_bound(s, key);
    let pos = lower_bound_of(s, key);
    let t = s.insert(pos, key);
    assert forall|i: int, j: int| 0 <= i < j < t.len() implies t[i] <= t[j] by {
        if j < pos {
            assert(s[i] <= s[j]);
        } else if j == pos {
            assert(s[i] < key);
        } else if i < pos {
            assert(s[i] < key);
            assert(key <= s[j - 1]);
        } else if i == pos {
            assert(key <= s[j - 1]);
        } else {
            assert(s[i - 1] <= s[j - 1]);
        }
    }
}

/// Binary search in an ascending queue for the first place whose key is not
/// below `key`.
pub fn lower_bound(v: &VecDeque<i64>, key: i64) -> (pos: usize)
    requires
        ascending(v@),
    ensures
        pos == lower_bound_of(v@, key),
        pos <= v@.len(),
        forall|i: int| 0 <= i < pos ==> v@[i] < key,
        forall|i: int| pos <= i < v@.len() ==> key <= v@[i],
{
    let mut lo: usize = 0;
    let mut hi: usize = v.len();
    while lo < hi
        invariant
            ascending(v@),
            lo <= hi <= v@.len(),
            forall|i: int| 0 <= i < lo ==> v@[i] < key,
            forall|i: int| hi <= i < v@.len() ==> key <= v@[i],
        decreases hi - lo,
    {
        let mid: usize = lo + (hi - lo) / 2;
        if v[mid] < key {
            lo = mid + 1;
        } else {
            hi = mid;
        }
    }
    proof {
        lemma_lower_bound_unique(v@, key, lo as int);
    }
    lo
}

/// The first place in an ascending vector whose key is not below `key`.
pub fn lower_bound_in(v: &Vec<i64>, key: i64) -> (pos: usize)
    requires
        ascending(v@),
    ensures
        pos == lower_bound_of(v@, key),
        pos <= v@.len(),
{
    let mut pos: usize = 0;
    while pos < v.len() && v[pos] < key
        invariant
            pos <= v@.len(),
            forall|i: int| 0 <= i < pos ==> v@[i] < key,
        decreases v@.len() - pos,
    {
        pos += 1;
    }
    proof {
        assert forall|i: int| pos <= i < v@.len() implies key <= v@[i] by {
            if i > pos {
                assert(v@[pos as int] <= v@[i]);
            }
        }
        lemma_lower_bound_unique(v@, key, pos as int);
    }
    pos
}

/// Puts the keys of `v` in ascending order.
pub fn sort_keys(v: &mut Vec<i64>)
    ensures
        final(v)@ == sorted_of(old(v)@),
{
    let mut out: Vec<i64> = Vec::new();
    let mut i: usize = 0;
    assert(out@ =~= v@.subrange(0, 0));
    while i < v.len()
        invariant
            i <= v@.len(),
            ascending(out@),
            out@.to_multiset() == v@.subrange(0, i as int).to_multiset(),
        decreases v@.len() - i,
    {
        let key: i64 = v[i];
        let pos: usize = lower_bound_in(&out, key);
        proof {
            lemma_insert_keeps_ascending(out@, key);
            to_multiset_insert(out@, pos as int, key);
            to_multiset_build(v@.subrange(0, i as int), key);
            assert(v@.subrange(0, i as int).push(key) =~= v@.subrange(0, i + 1));
        }
        out.insert(pos, key);
        i += 1;
    }
    proof {
        assert(v@.subrange(0, i as int) =~= v@);
        lemma_ascending_is_sorted_of(out@, v@);
    }
    *v = out;
}

} // verus!
