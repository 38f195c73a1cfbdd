//! Median of the response times of one probe run.

use crate::order::{ascending, sort_by_key};
use vstd::prelude::*;
use vstd::relations::{sorted_by, total_ordering};
use vstd::seq_lib::*;

verus! {

/// The usual order on response times.
pub open spec fn at_most() -> spec_fn(u64, u64) -> bool {
    |a: u64, b: u64| a <= b
}

/// The response times in ascending order.
pub open spec fn sorted_latencies(s: Seq<u64>) -> Seq<u64> {
    s.sort_by(at_most())
}

/// The central value of an ascending sequence: 0 for an empty one, the
/// middle element for an odd length, the mean of the two middle elements,
/// rounded down, for an even length.
pub open spec fn middle_of(t: Seq<u64>) -> int {
    let n = t.len() as int;
    if n == 0 {
        0
    } else if n % 2 == 0 {
        (t[n / 2 - 1] + t[n / 2]) / 2
    } else {
        t[n / 2] as int
    }
}

/// The median of `s`, in whatever order its elements stand.
pub open spec fn median_of(s: Seq<u64>) -> int {
    middle_of(sorted_latencies(s))
}

/// An ascending sequence with the elements of `s` is the sorted form of `s`.
pub proof fn lemma_sorted_form_unique(s: Seq<u64>, t: Seq<u64>)
    requires
        ascending(t),
        t.to_multiset() == s.to_multiset(),
    ensures
        t == sorted_latencies(s),
{
    assert(total_ordering(at_most()));
    s.lemma_sort_by_ensures(at_most());
    assert(sorted_by(t, at_most()));
    lemma_sorted_unique(t, sorted_latencies(s), at_most());
}

/// The median of no values is 0.
pub proof fn lemma_median_empty()
    ensures
        median_of(Seq::<u64>::empty()) == 0,
{
    let s = Seq::<u64>::empty();
    lemma_sorted_form_unique(s, s);
}

/// The median of one value is that value.
pub proof fn lemma_median_single(x: u64)
    ensures
        median_of(seq![x]) == x,
{
    lemma_sorted_form_unique(seq![x], seq![x]);
}

/// For an odd number of values the median is the middle element of their
/// sorted arrangement `t`.
pub proof fn lemma_median_odd(s: Seq<u64>, t: Seq<u64>)
    requires
        ascending(t),
        t.to_multiset() == s.to_multiset(),
        s.len() % 2 == 1,
    ensures
        t.len() == s.len(),
        median_of(s) == t[s.len() as int / 2],
{
    lemma_sorted_form_unique(s, t);
    s.to_multiset_ensures();
    t.to_multiset_ensures();
}

/// For an even, positive number of values the median is the mean, rounded
/// down, of the two middle elements of their sorted arrangement `t`.
pub proof fn lemma_median_even(s: Seq<u64>, t: Seq<u64>)
    requires
        ascending(t),
        t.to_multiset() == s.to_multiset(),
        s.len() > 0,
        s.len() % 2 == 0,
    ensures
        t.len() == s.len(),
        median_of(s) == (t[s.len() as int / 2 - 1] + t[s.len() as int / 2]) / 2,
{
    lemma_sorted_form_unique(s, t);
    s.to_multiset_ensures();
    t.to_multiset_ensures();
}

/// The median lies between the smallest and the largest value.
pub proof fn lemma_median_within_range(s: Seq<u64>, lo: u64, hi: u64)
    requires
        s.len() > 0,
        forall|i: int| 0 <= i < s.len() ==> lo <= #[trigger] s[i] && s[i] <= hi,
    ensures
        lo <= median_of(s) <= hi,
{
    let t = sorted_latencies(s);
    s.lemma_sort_by_ensures(at_most());
    s.to_multiset_ensures();
    t.to_multiset_ensures();
    assert forall|i: int| 0 <= i < t.len() implies lo <= #[trigger] t[i] && t[i] <= hi by {
        assert(t.to_multiset().count(t[i]) > 0);
        assert(s.contains(t[i]));
    }
    let n = t.len() as int;
    assert(lo <= t[n / 2] <= hi);
    if n % 2 == 0 {
        assert(lo <= t[n / 2 - 1] <= hi);
    }
}

/// Sorts the response times and returns their median: 0 when there are
/// none, so a run in which every endpoint failed still has a value to record.
pub fn median(latencies: &mut Vec<u64>) -> (m: u64)
    ensures
        final(latencies)@ == sorted_latencies(old(latencies)@),
        m == median_of(old(latencies)@),
{
    sort_by_key(latencies);
    proof {
        lemma_sorted_form_unique(old(latencies)@, latencies@);
    }
    let n: usize = latencies.len();
    if n == 0 {
        return 0;
    }
    if n % 2 == 0 {
        let left: u64 = latencies[n / 2 - 1];
        let right: u64 = latencies[n / 2];
        assert(left <= right);
        let m: u64 = left + (right - left) / 2;
        assert(m == (left + right) / 2);
        m
    } else {
        latencies[n / 2]
    }
}

} // verus!
