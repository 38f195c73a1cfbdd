//! Stable ordering of records by an integer key.

use vstd::prelude::*;
use vstd::seq_lib::*;

verus! {

/// A value that is ordered by an integer key.
pub trait Keyed {
    /// The key the value is ordered by.
    spec fn key(&self) -> u64;

    fn sort_key(&self) -> (k: u64)
        ensures
            k == self.key(),
    ;
}

impl Keyed for u64 {
    open spec fn key(&self) -> u64 {
        *self
    }

    fn sort_key(&self) -> (k: u64) {
        *self
    }
}

/// Keys never decrease from left to right.
pub open spec fn ascending<T: Keyed>(s: Seq<T>) -> bool {
    forall|i: int, j: int| 0 <= i < j < s.len() ==> s[i].key() <= s[j].key()
}

/// The test for "has key `k`".
pub open spec fn has_key<T: Keyed>(k: u64) -> spec_fn(T) -> bool {
    |x: T| x.key() == k
}

/// The elements of `s` whose key is `k`, in the order in which they stand.
pub open spec fn with_key<T: Keyed>(s: Seq<T>, k: u64) -> Seq<T> {
    s.filter(has_key(k))
}

/// `t` is `s` sorted by key, elements with equal keys left in their order.
pub open spec fn is_stable_sort_of<T: Keyed>(t: Seq<T>, s: Seq<T>) -> bool {
    &&& ascending(t)
    &&& t.to_multiset() == s.to_multiset()
    &&& forall|k: u64| with_key(t, k) == with_key(s, k)
}

/// `p` is where the elements of `t` with a key of at least `k` begin.
pub open spec fn is_lower_bound<T: Keyed>(t: Seq<T>, k: u64, p: int) -> bool {
    &&& 0 <= p <= t.len()
    &&& forall|i: int| 0 <= i < p ==> t[i].key() < k
    &&& p < t.len() ==> t[p].key() >= k
}

/// The number of leading elements of `t` with a key below `k`.
pub open spec fn lower_bound<T: Keyed>(t: Seq<T>, k: u64) -> int {
    choose|p: int| is_lower_bound(t, k, p)
}

/// `t` with `x` put in front of the first element whose key is at least that of `x`.
pub open spec fn place<T: Keyed>(t: Seq<T>, x: T) -> Seq<T> {
    t.insert(lower_bound(t, x.key()), x)
}

/// `s` sorted by key, ascending, elements with equal keys left in their order.
pub open spec fn sorted_by_key<T: Keyed>(s: Seq<T>) -> Seq<T>
    decreases s.len(),
{
    if s.len() == 0 {
        s
    } else {
        place(sorted_by_key(s.drop_first()), s.first())
    }
}

/// A sequence has one lower bound for a key, and `lower_bound` is it.
pub proof fn lemma_lower_bound_unique<T: Keyed>(t: Seq<T>, k: u64, p: int)
    requires
        is_lower_bound(t, k, p),
    ensures
        lower_bound(t, k) == p,
{
    let q = lower_bound(t, k);
    assert(is_lower_bound(t, k, q));
    if q < p {
        assert(t[q].key() < k);
    } else if p < q {
        assert(t[p].key() < k);
    }
}

/// Every sequence has a lower bound for every key.
proof fn lemma_lower_bound_exists<T: Keyed>(t: Seq<T>, k: u64) -> (p: int)
    ensures
        is_lower_bound(t, k, p),
        lower_bound(t, k) == p,
    decreases t.len(),
{
    let p = if t.len() == 0 {
        0
    } else {
        let q = lemma_lower_bound_exists(t.drop_last(), k);
        assert(forall|i: int| 0 <= i < t.len() - 1 ==> t.drop_last()[i] == t[i]);
        if q == t.len() - 1 && t.last().key() < k {
            t.len() as int
        } else {
            q
        }
    };
    lemma_lower_bound_unique(t, k, p);
    p
}

proof fn lemma_insert_with_key<T: Keyed>(s: Seq<T>, p: int, x: T, k: u64)
    requires
        0 <= p <= s.len(),
        forall|i: int| 0 <= i < p ==> s[i].key() < x.key(),
    ensures
        with_key(s.insert(p, x), k) == if x.key() == k {
            seq![x] + with_key(s, k)
        } else {
            with_key(s, k)
        },
{
    let pred = has_key::<T>(k);
    let head = s.subrange(0, p);
    let tail = s.subrange(p, s.len() as int);
    assert(s =~= head + tail);
    assert(s.insert(p, x) =~= head.push(x) + tail);
    Seq::filter_distributes_over_add(head, tail, pred);
    Seq::filter_distributes_over_add(head.push(x), tail, pred);
    head.lemma_filter_push(x, pred);
    if x.key() == k {
        assert(head.all(|y: T| !pred(y)));
        head.lemma_all_neg_filter_empty(pred);
        assert(head.filter(pred) =~= Seq::<T>::empty());
        assert(head.filter(pred).push(x) =~= seq![x]);
        assert(Seq::<T>::empty() + tail.filter(pred) =~= tail.filter(pred));
        assert(with_key(s, k) == tail.filter(pred));
        assert(with_key(s.insert(p, x), k) == seq![x] + tail.filter(pred));
    } else {
        assert(with_key(s.insert(p, x), k) == head.filter(pred) + tail.filter(pred));
    }
}

proof fn lemma_place_ascending<T: Keyed>(t: Seq<T>, x: T)
    requires
        ascending(t),
    ensures
        ascending(place(t, x)),
{
    let p = lemma_lower_bound_exists(t, x.key());
    let u = place(t, x);
    t.insert_ensures(p, x);
    assert forall|i: int, j: int| 0 <= i < j < u.len() implies u[i].key() <= u[j].key() by {
        if j < p {
        } else if j == p {
        } else if i < p {
            assert(u[j] == t[j - 1]);
            if p < j - 1 {
                assert(t[p].key() <= t[j - 1].key());
            }
        } else if i == p {
            assert(u[j] == t[j - 1]);
            if p < j - 1 {
                assert(t[p].key() <= t[j - 1].key());
            }
        } else {
            assert(u[i] == t[i - 1]);
            assert(u[j] == t[j - 1]);
        }
    }
}

/// `sorted_by_key` orders by key, keeps every element, and leaves elements
/// with equal keys in the order in which they stood.
pub proof fn lemma_sorted_by_key_is_stable<T: Keyed>(s: Seq<T>)
    ensures
        is_stable_sort_of(sorted_by_key(s), s),
        sorted_by_key(s).len() == s.len(),
    decreases s.len(),
{
    if s.len() == 0 {
    } else {
        let x = s.first();
        let rest = s.drop_first();
        let t = sorted_by_key(rest);
        lemma_sorted_by_key_is_stable(rest);
        let p = lemma_lower_bound_exists(t, x.key());
        lemma_place_ascending(t, x);
        assert(s =~= seq![x] + rest);
        assert(place(t, x).to_multiset() == s.to_multiset()) by {
            to_multiset_insert(t, p, x);
            to_multiset_insert(rest, 0, x);
            assert(s =~= rest.insert(0, x));
        }
        assert forall|k: u64| with_key(place(t, x), k) == with_key(s, k) by {
            lemma_insert_with_key(t, p, x, k);
            Seq::filter_distributes_over_add(seq![x], rest, has_key::<T>(k));
            Seq::<T>::empty().lemma_filter_push(x, has_key::<T>(k));
            assert(Seq::<T>::empty().push(x) =~= seq![x]);
            assert(Seq::<T>::empty().filter(has_key::<T>(k)) =~= Seq::<T>::empty());
            if x.key() == k {
                assert(with_key(seq![x], k) =~= seq![x]);
            } else {
                assert(with_key(seq![x], k) =~= Seq::<T>::empty());
                assert(Seq::<T>::empty() + with_key(rest, k) =~= with_key(rest, k));
            }
        }
    }
}

/// No two elements have the same key.
pub open spec fn distinct_keys<T: Keyed>(s: Seq<T>) -> bool {
    forall|i: int, j: int| 0 <= i < j < s.len() ==> s[i].key() != s[j].key()
}

/// Keys rise strictly from left to right.
pub open spec fn strictly_ascending<T: Keyed>(s: Seq<T>) -> bool {
    forall|i: int, j: int| 0 <= i < j < s.len() ==> s[i].key() < s[j].key()
}

/// A rearrangement of elements with distinct keys has distinct keys.
pub proof fn lemma_distinct_keys_rearranged<T: Keyed>(a: Seq<T>, b: Seq<T>)
    requires
        distinct_keys(a),
        a.to_multiset() == b.to_multiset(),
    ensures
        distinct_keys(b),
{
    broadcast use vstd::multiset::group_multiset_axioms;
    broadcast use group_to_multiset_ensures;

    assert(a.no_duplicates()) by {
        assert forall|i: int, j: int|
            (0 <= i < a.len() && 0 <= j < a.len() && i != j) implies a[i] != a[j] by {
            if i < j {
                assert(a[i].key() != a[j].key());
            } else {
                assert(a[j].key() != a[i].key());
            }
        }
    }
    a.lemma_multiset_has_no_duplicates();
    b.lemma_multiset_has_no_duplicates_conv();
    assert forall|i: int, j: int| 0 <= i < j < b.len() implies b[i].key() != b[j].key() by {
        assert(b[i] != b[j]);
        assert(b.contains(b[i]));
        assert(b.contains(b[j]));
        assert(a.to_multiset().count(b[i]) > 0);
        assert(a.to_multiset().count(b[j]) > 0);
        assert(a.contains(b[i]));
        assert(a.contains(b[j]));
        let p = choose|p: int| 0 <= p < a.len() && a[p] == b[i];
        let q = choose|q: int| 0 <= q < a.len() && a[q] == b[j];
        if p < q {
            assert(a[p].key() != a[q].key());
        } else {
            assert(p != q);
            assert(a[q].key() != a[p].key());
        }
    }
}

/// Two sequences with strictly rising keys and the same elements are equal.
pub proof fn lemma_strictly_ascending_unique<T: Keyed>(x: Seq<T>, y: Seq<T>)
    requires
        strictly_ascending(x),
        strictly_ascending(y),
        x.to_multiset() == y.to_multiset(),
    ensures
        x == y,
    decreases x.len(),
{
    broadcast use vstd::multiset::group_multiset_axioms;
    broadcast use group_to_multiset_ensures;

    assert(x.len() == y.len()) by {
        assert(x.to_multiset().len() == x.len());
        assert(y.to_multiset().len() == y.len());
    }
    if x.len() == 0 {
        assert(x =~= y);
    } else {
        assert(x.contains(x[0]));
        assert(y.contains(y[0]));
        assert(y.to_multiset().count(x[0]) > 0);
        assert(x.to_multiset().count(y[0]) > 0);
        assert(y.contains(x[0]));
        assert(x.contains(y[0]));
        let i = choose|i: int| 0 <= i < y.len() && y[i] == x[0];
        let j = choose|j: int| 0 <= j < x.len() && x[j] == y[0];
        if j > 0 {
            assert(x[0].key() < x[j].key());
            if i > 0 {
                assert(y[0].key() < y[i].key());
            }
        }
        assert(x[0] == y[0]);
        assert(x.drop_first().to_multiset() =~= x.to_multiset().remove(x[0])) by {
            assert(x.remove(0) =~= x.drop_first());
        }
        assert(y.drop_first().to_multiset() =~= y.to_multiset().remove(y[0])) by {
            assert(y.remove(0) =~= y.drop_first());
        }
        lemma_strictly_ascending_unique(x.drop_first(), y.drop_first());
        assert(x =~= y) by {
            assert forall|k: int| 0 <= k < x.len() implies x[k] == y[k] by {
                if k > 0 {
                    assert(x[k] == x.drop_first()[k - 1]);
                    assert(y[k] == y.drop_first()[k - 1]);
                }
            }
        }
    }
}

/// Sorting does not depend on the order in which the elements stood, as
/// long as no two of them have the same key.
pub proof fn lemma_sorting_ignores_order<T: Keyed>(a: Seq<T>, b: Seq<T>)
    requires
        distinct_keys(a),
        a.to_multiset() == b.to_multiset(),
    ensures
        sorted_by_key(a) == sorted_by_key(b),
{
    let x = sorted_by_key(a);
    let y = sorted_by_key(b);
    lemma_sorted_by_key_is_stable(a);
    lemma_sorted_by_key_is_stable(b);
    lemma_distinct_keys_rearranged(a, x);
    lemma_distinct_keys_rearranged(a, y);
    assert(strictly_ascending(x)) by {
        assert forall|i: int, j: int| 0 <= i < j < x.len() implies x[i].key() < x[j].key() by {
            assert(x[i].key() != x[j].key());
        }
    }
    assert(strictly_ascending(y)) by {
        assert forall|i: int, j: int| 0 <= i < j < y.len() implies y[i].key() < y[j].key() by {
            assert(y[i].key() != y[j].key());
        }
    }
    lemma_strictly_ascending_unique(x, y);
}

/// Two ascending sequences with the same elements, in which the elements of
/// each key stand in the same order, are equal.
pub proof fn lemma_ascending_unique<T: Keyed>(t: Seq<T>, u: Seq<T>)
    requires
        ascending(t),
        ascending(u),
        t.to_multiset() == u.to_multiset(),
        forall|k: u64| with_key(t, k) == with_key(u, k),
    ensures
        t == u,
    decreases t.len(),
{
    broadcast use vstd::multiset::group_multiset_axioms;
    broadcast use group_to_multiset_ensures;

    assert(t.len() == u.len()) by {
        assert(t.to_multiset().len() == t.len());
        assert(u.to_multiset().len() == u.len());
    }
    if t.len() == 0 {
        assert(t =~= u);
    } else {
        let n = t.len() as int;
        let a = t.last();
        let b = u.last();
        let k = a.key();
        assert(t.contains(a));
        assert(u.contains(b));
        assert(u.to_multiset().count(a) > 0);
        assert(t.to_multiset().count(b) > 0);
        assert(u.contains(a));
        assert(t.contains(b));
        let i = choose|i: int| 0 <= i < u.len() && u[i] == a;
        let j = choose|j: int| 0 <= j < t.len() && t[j] == b;
        if i < n - 1 {
            assert(u[i].key() <= u[n - 1].key());
        }
        if j < n - 1 {
            assert(t[j].key() <= t[n - 1].key());
        }
        assert(b.key() == k);
        let t0 = t.drop_last();
        let u0 = u.drop_last();
        assert(t =~= t0.push(a));
        assert(u =~= u0.push(b));
        t0.lemma_filter_push(a, has_key::<T>(k));
        u0.lemma_filter_push(b, has_key::<T>(k));
        assert(with_key(t, k) == with_key(t0, k).push(a));
        assert(with_key(u, k) == with_key(u0, k).push(b));
        assert(with_key(t, k) == with_key(u, k));
        assert(a == b) by {
            assert(with_key(t0, k).push(a).last() == a);
            assert(with_key(u0, k).push(b).last() == b);
        }
        assert forall|q: u64| with_key(t0, q) == with_key(u0, q) by {
            t0.lemma_filter_push(a, has_key::<T>(q));
            u0.lemma_filter_push(b, has_key::<T>(q));
            assert(with_key(t, q) == with_key(u, q));
            if q == k {
                assert(with_key(t0, q) =~= with_key(t0, q).push(a).drop_last());
                assert(with_key(u0, q) =~= with_key(u0, q).push(b).drop_last());
            }
        }
        assert(t0.to_multiset() =~= u0.to_multiset()) by {
            assert(t.remove(n - 1) =~= t0);
            assert(u.remove(n - 1) =~= u0);
        }
        lemma_ascending_unique(t0, u0);
    }
}

/// The stable sort of a sequence is `sorted_by_key` of it, and nothing else.
pub proof fn lemma_stable_sort_unique<T: Keyed>(t: Seq<T>, s: Seq<T>)
    requires
        is_stable_sort_of(t, s),
    ensures
        t == sorted_by_key(s),
{
    lemma_sorted_by_key_is_stable(s);
    lemma_ascending_unique(t, sorted_by_key(s));
}

/// Sorts `v` by key, ascending. Elements with equal keys keep their order.
pub fn sort_by_key<T: Keyed>(v: &mut Vec<T>)
    ensures
        final(v)@ == sorted_by_key(old(v)@),
        is_stable_sort_of(final(v)@, old(v)@),
{
    let ghost orig = v@;
    let mut out: Vec<T> = Vec::new();
    proof {
        assert(orig.skip(orig.len() as int) =~= Seq::<T>::empty());
    }
    while v.len() > 0
        invariant
            v@ == orig.take(v@.len() as int),
            v@.len() <= orig.len(),
            out@ == sorted_by_key(orig.skip(v@.len() as int)),
        decreases v.len(),
    {
        let ghost n = v@.len() as int;
        let x = v.pop().unwrap();
        let k = x.sort_key();
        let mut p: usize = 0;
        while p < out.len() && out[p].sort_key() < k
            invariant
                p <= out.len(),
                forall|i: int| 0 <= i < p ==> out@[i].key() < k,
            decreases out.len() - p,
        {
            p += 1;
        }
        proof {
            lemma_lower_bound_unique(out@, k, p as int);
            assert(x == orig[n - 1]);
            assert(orig.skip(n - 1).drop_first() =~= orig.skip(n));
            assert(v@ =~= orig.take(n - 1));
        }
        out.insert(p, x);
    }
    proof {
        assert(orig.skip(0) =~= orig);
        lemma_sorted_by_key_is_stable(orig);
    }
    *v = out;
}

} // verus!
