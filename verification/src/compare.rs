//! All-pairs comparison of the answers that the endpoints gave to one request.
//!
//! Whether two answers count as the same is a relation `same`; the executable
//! comparison uses the `==` of the answers' type.

use vstd::prelude::*;
use vstd::std_specs::cmp::PartialEqSpec;

verus! {

/// The relation that the `==` of `T` decides.
pub open spec fn equality<T: PartialEq>() -> spec_fn(T, T) -> bool {
    |a: T, b: T| a.eq_spec(&b)
}

/// The answers at positions `i < j` are not the same.
pub open spec fn differ<T>(v: Seq<T>, same: spec_fn(T, T) -> bool, i: int, j: int) -> bool {
    0 <= i < j < v.len() && !same(v[i], v[j])
}

/// No two of the answers differ.
pub open spec fn all_equal<T>(v: Seq<T>, same: spec_fn(T, T) -> bool) -> bool {
    forall|i: int, j: int| !differ(v, same, i, j)
}

/// The pair `(a, b)` is tested before the pair `(i, j)`.
pub open spec fn tested_before(a: int, b: int, i: int, j: int) -> bool {
    a < i || (a == i && b < j)
}

/// `(i, j)` is the first pair, in the order of testing, whose answers differ.
pub open spec fn is_first_mismatch<T>(
    v: Seq<T>,
    same: spec_fn(T, T) -> bool,
    i: int,
    j: int,
) -> bool {
    &&& differ(v, same, i, j)
    &&& forall|a: int, b: int| tested_before(a, b, i, j) ==> !differ(v, same, a, b)
}

/// `r` is the outcome of comparing the answers `v`: `None` when all are
/// equal, else the first pair that differs.
pub open spec fn is_comparison_result<T>(
    v: Seq<T>,
    same: spec_fn(T, T) -> bool,
    r: Option<(usize, usize)>,
) -> bool {
    match r {
        None => all_equal(v, same),
        Some((i, j)) => is_first_mismatch(v, same, i as int, j as int),
    }
}

/// There is one first mismatching pair at most.
pub proof fn lemma_first_mismatch_unique<T>(
    v: Seq<T>,
    same: spec_fn(T, T) -> bool,
    i: int,
    j: int,
    a: int,
    b: int,
)
    requires
        is_first_mismatch(v, same, i, j),
        is_first_mismatch(v, same, a, b),
    ensures
        i == a,
        j == b,
{
    if tested_before(a, b, i, j) {
        assert(!differ(v, same, a, b));
    } else if tested_before(i, j, a, b) {
        assert(!differ(v, same, i, j));
    }
}

/// Answers that are all one and the same value never differ, whenever
/// `same` holds between a value and itself.
pub proof fn lemma_identical_answers_agree<T>(v: Seq<T>, same: spec_fn(T, T) -> bool)
    requires
        forall|x: T| #[trigger] same(x, x),
        forall|i: int, j: int| 0 <= i < j < v.len() ==> v[i] == v[j],
    ensures
        all_equal(v, same),
        forall|r: Option<(usize, usize)>| is_comparison_result(v, same, r) ==> r is None,
{
    assert forall|i: int, j: int| !differ(v, same, i, j) by {
        if 0 <= i < j < v.len() {
            assert(v[i] == v[j]);
            assert(same(v[j], v[j]));
        }
    }
}

/// Two answers that are not the same are found: the comparison cannot then
/// come out as "all equal".
pub proof fn lemma_difference_is_found<T>(
    v: Seq<T>,
    same: spec_fn(T, T) -> bool,
    i: int,
    j: int,
)
    requires
        differ(v, same, i, j),
    ensures
        !all_equal(v, same),
        forall|r: Option<(usize, usize)>| is_comparison_result(v, same, r) ==> r is Some,
{
}

/// Tests every pair `i < j` of answers, in the order `(0, 1), (0, 2), ..,
/// (1, 2), ..`, and returns the first pair that is not equal, or `None` when
/// all are equal.
pub fn first_mismatch<T: PartialEq>(v: &Vec<T>) -> (r: Option<(usize, usize)>)
    requires
        T::obeys_eq_spec(),
    ensures
        is_comparison_result(v@, equality::<T>(), r),
{
    let ghost same = equality::<T>();
    let n: usize = v.len();
    let mut i: usize = 0;
    while i < n
        invariant
            n == v@.len(),
            i <= n,
            T::obeys_eq_spec(),
            same == equality::<T>(),
            forall|a: int, b: int| a < i ==> !differ(v@, same, a, b),
        decreases n - i,
    {
        let mut j: usize = i + 1;
        while j < n
            invariant
                n == v@.len(),
                i < n,
                i < j <= n,
                T::obeys_eq_spec(),
                same == equality::<T>(),
                forall|a: int, b: int| a < i ==> !differ(v@, same, a, b),
                forall|b: int| b < j ==> !differ(v@, same, i as int, b),
            decreases n - j,
        {
            if v[i] != v[j] {
                assert(differ(v@, same, i as int, j as int));
                return Some((i, j));
            }
            j += 1;
        }
        i += 1;
    }
    None
}

/// Whether any two of the answers differ.
pub fn mismatched_responses<T: PartialEq>(v: &Vec<T>) -> (r: bool)
    requires
        T::obeys_eq_spec(),
    ensures
        r == !all_equal(v@, equality::<T>()),
{
    let found = first_mismatch(v);
    found.is_some()
}

} // verus!
