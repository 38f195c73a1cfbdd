//! One probe run: the endpoints' results reduced to a median latency and a
//! verdict on whether the answers agree.
//!
//! A run holds one result per endpoint, in the order of the endpoints. An
//! endpoint that failed takes no part in the median or in the comparison, and
//! never ends the run.

use crate::compare::{all_equal, differ, equality, first_mismatch, is_first_mismatch};
use crate::compare::{lemma_first_mismatch_unique, tested_before};
use crate::latency::{median, median_of};
use crate::order::{distinct_keys, lemma_sorting_ignores_order, sort_by_key, sorted_by_key, Keyed};
use crate::types::{BalanceSummaryExt, FinalityCheckpointsExt, Root, SignedBeaconBlock};
use crate::types::ValidatorSummaryExt;
use vstd::prelude::*;
use vstd::std_specs::cmp::PartialEqSpec;

verus! {

/// Why an endpoint gave no answer.
#[derive(Clone, Copy, Debug, PartialEq, Eq, Structural)]
pub enum ProbeError {
    /// The connection failed or the request timed out.
    Transport,
    /// The body of the response could not be decoded.
    Decode,
}

/// What one endpoint did with the request.
#[derive(Clone, Debug)]
pub enum ProbeResult<T> {
    /// The answer, and the time it took in milliseconds.
    Success(T, u64),
    Failure(ProbeError),
}

/// What the comparison of one run found.
#[derive(Clone, Copy, Debug, PartialEq, Eq, Structural)]
pub enum Verdict {
    /// Fewer than two endpoints answered: there was nothing to compare.
    NotCompared,
    /// Two or more endpoints answered, and all answers are equal.
    AllEqual,
    /// The endpoints at these two positions gave the first pair of answers
    /// that differ.
    Mismatch { first: usize, second: usize },
}

/// The outcome of one probe run.
#[derive(Clone, Copy, Debug, PartialEq, Eq, Structural)]
pub struct ProbeOutcome {
    /// How many endpoints answered.
    pub succeeded: usize,
    /// The median, in milliseconds, of the response times of those that did.
    pub median_latency: u64,
    pub verdict: Verdict,
}

/// The answers of the endpoints that succeeded, in the order of the endpoints.
pub open spec fn values_of<T>(results: Seq<ProbeResult<T>>) -> Seq<T>
    decreases results.len(),
{
    if results.len() == 0 {
        Seq::empty()
    } else {
        let rest = values_of(results.drop_last());
        match results.last() {
            ProbeResult::Success(value, _) => rest.push(value),
            ProbeResult::Failure(_) => rest,
        }
    }
}

/// The response times of the endpoints that succeeded, in the order of the
/// endpoints.
pub open spec fn latencies_of<T>(results: Seq<ProbeResult<T>>) -> Seq<u64>
    decreases results.len(),
{
    if results.len() == 0 {
        Seq::empty()
    } else {
        let rest = latencies_of(results.drop_last());
        match results.last() {
            ProbeResult::Success(_, millis) => rest.push(millis),
            ProbeResult::Failure(_) => rest,
        }
    }
}

/// The positions of the endpoints that succeeded, ascending.
pub open spec fn origins_of<T>(results: Seq<ProbeResult<T>>) -> Seq<usize>
    decreases results.len(),
{
    if results.len() == 0 {
        Seq::empty()
    } else {
        let rest = origins_of(results.drop_last());
        match results.last() {
            ProbeResult::Success(_, _) => rest.push((results.len() - 1) as usize),
            ProbeResult::Failure(_) => rest,
        }
    }
}

/// `a` and `b` have the same length and equal elements at each position.
pub open spec fn pointwise_equal<T: PartialEq>(a: Seq<T>, b: Seq<T>) -> bool {
    &&& a.len() == b.len()
    &&& forall|k: int| 0 <= k < a.len() ==> #[trigger] a[k].eq_spec(&b[k])
}

/// Two lists are the same when, each sorted by key, they are equal position
/// by position: the order in which a node lists its entries does not count.
pub open spec fn sorted_equality<T: PartialEq + Keyed>() -> spec_fn(Vec<T>, Vec<T>) -> bool {
    |a: Vec<T>, b: Vec<T>| pointwise_equal(sorted_by_key(a@), sorted_by_key(b@))
}

/// `v` is the verdict on the answers, which came from the endpoints at
/// `origins`, under the relation `same`.
pub open spec fn is_verdict<T>(
    origins: Seq<usize>,
    answers: Seq<T>,
    same: spec_fn(T, T) -> bool,
    v: Verdict,
) -> bool {
    match v {
        Verdict::NotCompared => answers.len() < 2,
        Verdict::AllEqual => answers.len() >= 2 && all_equal(answers, same),
        Verdict::Mismatch { first, second } => exists|i: int, j: int|
            #[trigger] is_first_mismatch(answers, same, i, j) && origins[i] == first
                && origins[j] == second,
    }
}

/// `out` is the outcome of the run with these results, answers being held
/// against each other by `same`.
pub open spec fn is_outcome<T>(
    results: Seq<ProbeResult<T>>,
    same: spec_fn(T, T) -> bool,
    out: ProbeOutcome,
) -> bool {
    &&& out.succeeded == values_of(results).len()
    &&& out.median_latency == median_of(latencies_of(results))
    &&& is_verdict(origins_of(results), values_of(results), same, out.verdict)
}

impl Verdict {
    /// By how much the run raises the count of mismatches.
    pub open spec fn increment(&self) -> u64 {
        if *self is Mismatch {
            1
        } else {
            0
        }
    }
}

impl ProbeOutcome {
    /// Whether two endpoints gave answers that differ.
    pub fn is_mismatch(&self) -> (r: bool)
        ensures
            r == (self.verdict is Mismatch),
    {
        match self.verdict {
            Verdict::Mismatch { .. } => true,
            _ => false,
        }
    }

    /// By how much the run raises the probe's count of mismatches: by one
    /// for a mismatch, whatever the number of pairs that differ, else not at all.
    pub fn unequal_increment(&self) -> (n: u64)
        ensures
            n == self.verdict.increment(),
    {
        if self.is_mismatch() {
            1
        } else {
            0
        }
    }
}

/// All answers are one and the same value.
pub open spec fn all_identical<T>(answers: Seq<T>) -> bool {
    forall|i: int, j: int| 0 <= i < j < answers.len() ==> answers[i] == answers[j]
}

/// A run has one outcome.
pub proof fn lemma_outcome_unique<T>(
    results: Seq<ProbeResult<T>>,
    same: spec_fn(T, T) -> bool,
    a: ProbeOutcome,
    b: ProbeOutcome,
)
    requires
        is_outcome(results, same, a),
        is_outcome(results, same, b),
    ensures
        a == b,
{
    let answers = values_of(results);
    let origins = origins_of(results);
    if a.verdict is Mismatch {
        let (i, j) = choose|i: int, j: int|
            #[trigger] is_first_mismatch(answers, same, i, j) && origins[i] == a.verdict->first
                && origins[j] == a.verdict->second;
        assert(differ(answers, same, i, j));
        if b.verdict is Mismatch {
            let (k, l) = choose|k: int, l: int|
                #[trigger] is_first_mismatch(answers, same, k, l) && origins[k]
                    == b.verdict->first && origins[l] == b.verdict->second;
            lemma_first_mismatch_unique(answers, same, i, j, k, l);
        }
    } else if b.verdict is Mismatch {
        let (k, l) = choose|k: int, l: int|
            #[trigger] is_first_mismatch(answers, same, k, l) && origins[k] == b.verdict->first
                && origins[l] == b.verdict->second;
        assert(differ(answers, same, k, l));
    }
}

/// Endpoints that all return one and the same payload give no mismatch, and
/// the count of mismatches stays as it is.
pub proof fn lemma_identical_payloads_agree<T>(
    results: Seq<ProbeResult<T>>,
    same: spec_fn(T, T) -> bool,
    out: ProbeOutcome,
)
    requires
        forall|x: T| #[trigger] same(x, x),
        all_identical(values_of(results)),
        is_outcome(results, same, out),
    ensures
        !(out.verdict is Mismatch),
        out.verdict.increment() == 0,
        values_of(results).len() >= 2 ==> out.verdict == Verdict::AllEqual,
{
    let answers = values_of(results);
    if out.verdict is Mismatch {
        let (i, j) = choose|i: int, j: int|
            #[trigger] is_first_mismatch(answers, same, i, j) && origins_of(results)[i]
                == out.verdict->first && origins_of(results)[j] == out.verdict->second;
        assert(differ(answers, same, i, j));
        assert(answers[i] == answers[j]);
        assert(same(answers[j], answers[j]));
    }
}

/// Two endpoints whose answers are not the same give a mismatch, and the
/// count of mismatches goes up by exactly one.
pub proof fn lemma_differing_payloads_mismatch<T>(
    results: Seq<ProbeResult<T>>,
    same: spec_fn(T, T) -> bool,
    out: ProbeOutcome,
    i: int,
    j: int,
)
    requires
        differ(values_of(results), same, i, j),
        is_outcome(results, same, out),
    ensures
        out.verdict is Mismatch,
        out.verdict.increment() == 1,
{
}

/// Every payload is the same as itself, under the relation by which its
/// probe kind compares: state roots, finality checkpoints and blocks by
/// their equality, validators and balances by the equality of their lists
/// sorted by index.
pub proof fn lemma_payload_is_same_as_itself()
    ensures
        forall|x: Root| #[trigger] equality::<Root>()(x, x),
        forall|x: FinalityCheckpointsExt| #[trigger] equality::<FinalityCheckpointsExt>()(x, x),
        forall|x: SignedBeaconBlock| #[trigger] equality::<SignedBeaconBlock>()(x, x),
        forall|x: Vec<ValidatorSummaryExt>| #[trigger]
            sorted_equality::<ValidatorSummaryExt>()(x, x),
        forall|x: Vec<BalanceSummaryExt>| #[trigger] sorted_equality::<BalanceSummaryExt>()(x, x),
{
    assert forall|x: Vec<ValidatorSummaryExt>| #[trigger]
        sorted_equality::<ValidatorSummaryExt>()(x, x) by {
        let t = sorted_by_key(x@);
        assert forall|k: int| 0 <= k < t.len() implies #[trigger] t[k].eq_spec(&t[k]) by {
            assert(t[k].matches(&t[k]));
        }
    }
    assert forall|x: Vec<BalanceSummaryExt>| #[trigger]
        sorted_equality::<BalanceSummaryExt>()(x, x) by {
        let t = sorted_by_key(x@);
        assert forall|k: int| 0 <= k < t.len() implies #[trigger] t[k].eq_spec(&t[k]) by {
            assert(t[k].matches(&t[k]));
        }
    }
}

/// For every probe kind: endpoints that all return one and the same payload
/// give no mismatch, and the count of mismatches stays as it is.
pub proof fn lemma_identical_payloads_agree_for_each_kind(
    roots: Seq<ProbeResult<Root>>,
    checkpoints: Seq<ProbeResult<FinalityCheckpointsExt>>,
    blocks: Seq<ProbeResult<SignedBeaconBlock>>,
    validators: Seq<ProbeResult<Vec<ValidatorSummaryExt>>>,
    balances: Seq<ProbeResult<Vec<BalanceSummaryExt>>>,
    out: ProbeOutcome,
)
    ensures
        all_identical(values_of(roots)) && is_outcome(roots, equality::<Root>(), out)
            ==> out.verdict.increment() == 0,
        all_identical(values_of(checkpoints)) && is_outcome(
            checkpoints,
            equality::<FinalityCheckpointsExt>(),
            out,
        ) ==> out.verdict.increment() == 0,
        all_identical(values_of(blocks)) && is_outcome(
            blocks,
            equality::<SignedBeaconBlock>(),
            out,
        ) ==> out.verdict.increment() == 0,
        all_identical(values_of(validators)) && is_outcome(
            validators,
            sorted_equality::<ValidatorSummaryExt>(),
            out,
        ) ==> out.verdict.increment() == 0,
        all_identical(values_of(balances)) && is_outcome(
            balances,
            sorted_equality::<BalanceSummaryExt>(),
            out,
        ) ==> out.verdict.increment() == 0,
{
    lemma_payload_is_same_as_itself();
    if all_identical(values_of(roots)) && is_outcome(roots, equality::<Root>(), out) {
        lemma_identical_payloads_agree(roots, equality::<Root>(), out);
    }
    if all_identical(values_of(checkpoints)) && is_outcome(
        checkpoints,
        equality::<FinalityCheckpointsExt>(),
        out,
    ) {
        lemma_identical_payloads_agree(checkpoints, equality::<FinalityCheckpointsExt>(), out);
    }
    if all_identical(values_of(blocks)) && is_outcome(
        blocks,
        equality::<SignedBeaconBlock>(),
        out,
    ) {
        lemma_identical_payloads_agree(blocks, equality::<SignedBeaconBlock>(), out);
    }
    if all_identical(values_of(validators)) && is_outcome(
        validators,
        sorted_equality::<ValidatorSummaryExt>(),
        out,
    ) {
        lemma_identical_payloads_agree(validators, sorted_equality::<ValidatorSummaryExt>(), out);
    }
    if all_identical(values_of(balances)) && is_outcome(
        balances,
        sorted_equality::<BalanceSummaryExt>(),
        out,
    ) {
        lemma_identical_payloads_agree(balances, sorted_equality::<BalanceSummaryExt>(), out);
    }
}

/// The order in which a node lists its entries does not count: two lists
/// with the same entries, no two of them for one index, are the same answer.
pub proof fn lemma_listing_order_is_irrelevant<T: PartialEq + Keyed>(a: Vec<T>, b: Vec<T>)
    requires
        forall|x: T| #[trigger] x.eq_spec(&x),
        distinct_keys(a@),
        a@.to_multiset() == b@.to_multiset(),
    ensures
        sorted_equality::<T>()(a, b),
{
    lemma_sorting_ignores_order(a@, b@);
    let t = sorted_by_key(a@);
    assert forall|k: int| 0 <= k < t.len() implies #[trigger] t[k].eq_spec(&t[k]) by {}
}

/// The three sequences of a run have one entry per endpoint that succeeded,
/// and the positions are those of the results, ascending.
pub proof fn lemma_successes<T>(results: Seq<ProbeResult<T>>)
    requires
        results.len() <= usize::MAX,
    ensures
        values_of(results).len() == origins_of(results).len(),
        latencies_of(results).len() == origins_of(results).len(),
        origins_of(results).len() <= results.len(),
        forall|k: int|
            0 <= k < origins_of(results).len() ==> {
                let at = #[trigger] origins_of(results)[k];
                &&& at < results.len()
                &&& results[at as int] == ProbeResult::Success(
                    values_of(results)[k],
                    latencies_of(results)[k],
                )
            },
        forall|k: int, l: int|
            0 <= k < l < origins_of(results).len() ==> origins_of(results)[k] < origins_of(
                results,
            )[l],
    decreases results.len(),
{
    if results.len() > 0 {
        let rest = results.drop_last();
        lemma_successes(rest);
        let origins = origins_of(results);
        assert forall|k: int| 0 <= k < origins_of(rest).len() implies (#[trigger] origins_of(
            rest,
        )[k]) < rest.len() && results[origins_of(rest)[k] as int] == rest[origins_of(
            rest,
        )[k] as int] by {}
        assert forall|k: int| 0 <= k < origins.len() implies {
            let at = #[trigger] origins[k];
            &&& at < results.len()
            &&& results[at as int] == ProbeResult::Success(
                values_of(results)[k],
                latencies_of(results)[k],
            )
        } by {
            if k < origins_of(rest).len() {
                assert(origins[k] == origins_of(rest)[k]);
            }
        }
        assert forall|k: int, l: int| 0 <= k < l < origins.len() implies origins[k]
            < origins[l] by {
            assert(origins[k] == origins_of(rest)[k]);
            if l < origins_of(rest).len() {
                assert(origins[l] == origins_of(rest)[l]);
            }
        }
    }
}

/// A mismatch names two endpoints of the run, the first before the second,
/// that both answered and whose answers are not the same.
pub proof fn lemma_mismatch_names_answers_that_differ<T>(
    results: Seq<ProbeResult<T>>,
    same: spec_fn(T, T) -> bool,
    out: ProbeOutcome,
)
    requires
        results.len() <= usize::MAX,
        is_outcome(results, same, out),
        out.verdict is Mismatch,
    ensures
        out.verdict->first < out.verdict->second < results.len(),
        results[out.verdict->first as int] is Success,
        results[out.verdict->second as int] is Success,
        !same(
            results[out.verdict->first as int]->Success_0,
            results[out.verdict->second as int]->Success_0,
        ),
{
    let answers = values_of(results);
    let origins = origins_of(results);
    let (i, j) = choose|i: int, j: int|
        #[trigger] is_first_mismatch(answers, same, i, j) && origins[i] == out.verdict->first
            && origins[j] == out.verdict->second;
    lemma_successes(results);
    assert(differ(answers, same, i, j));
    assert(origins[i] < origins[j]);
    assert(results[origins[i] as int] == ProbeResult::Success(
        answers[i],
        latencies_of(results)[i],
    ));
    assert(results[origins[j] as int] == ProbeResult::Success(
        answers[j],
        latencies_of(results)[j],
    ));
}

/// Parts the results of a run into the positions, the answers and the
/// response times of the endpoints that succeeded.
pub fn split_results<T>(results: Vec<ProbeResult<T>>) -> (parts: (Vec<usize>, Vec<T>, Vec<u64>))
    ensures
        parts.0@ == origins_of(results@),
        parts.1@ == values_of(results@),
        parts.2@ == latencies_of(results@),
        parts.0@.len() == parts.1@.len(),
        parts.0@.len() == parts.2@.len(),
{
    let ghost orig = results@;
    let total: usize = results.len();
    let mut rest = results;
    let mut origins: Vec<usize> = Vec::new();
    let mut values: Vec<T> = Vec::new();
    let mut latencies: Vec<u64> = Vec::new();
    let mut at: usize = 0;
    proof {
        assert(orig.skip(0) =~= orig);
        assert(orig.take(0) =~= Seq::<ProbeResult<T>>::empty());
    }
    while rest.len() > 0
        invariant
            at + rest@.len() == orig.len(),
            orig.len() == total,
            rest@ == orig.skip(at as int),
            origins@ == origins_of(orig.take(at as int)),
            values@ == values_of(orig.take(at as int)),
            latencies@ == latencies_of(orig.take(at as int)),
        decreases rest@.len(),
    {
        let r = rest.remove(0);
        proof {
            assert(r == orig[at as int]);
            assert(rest@ =~= orig.skip(at + 1));
            assert(orig.take(at + 1).drop_last() =~= orig.take(at as int));
            assert(orig.take(at + 1).last() == orig[at as int]);
        }
        match r {
            ProbeResult::Success(value, millis) => {
                origins.push(at);
                values.push(value);
                latencies.push(millis);
            },
            ProbeResult::Failure(_) => {},
        }
        at += 1;
    }
    proof {
        assert(orig.take(at as int) =~= orig);
        lemma_successes(orig);
    }
    (origins, values, latencies)
}

/// Compares the answers and names, for a mismatch, the endpoints that gave
/// the first pair that differs.
fn judge<T: PartialEq>(origins: &Vec<usize>, answers: &Vec<T>) -> (v: Verdict)
    requires
        T::obeys_eq_spec(),
        origins@.len() == answers@.len(),
    ensures
        is_verdict(origins@, answers@, equality::<T>(), v),
{
    if answers.len() < 2 {
        return Verdict::NotCompared;
    }
    match first_mismatch(answers) {
        None => Verdict::AllEqual,
        Some((i, j)) => {
            assert(is_first_mismatch(answers@, equality::<T>(), i as int, j as int));
            Verdict::Mismatch { first: origins[i], second: origins[j] }
        },
    }
}

/// A verdict on one sequence of answers is the verdict on another, when the
/// two relations decide every pair alike.
proof fn lemma_verdict_carries_over<A, B>(
    origins: Seq<usize>,
    u: Seq<A>,
    same_u: spec_fn(A, A) -> bool,
    w: Seq<B>,
    same_w: spec_fn(B, B) -> bool,
    v: Verdict,
)
    requires
        u.len() == w.len(),
        forall|i: int, j: int|
            0 <= i < j < u.len() ==> same_u(u[i], u[j]) == same_w(w[i], w[j]),
        is_verdict(origins, u, same_u, v),
    ensures
        is_verdict(origins, w, same_w, v),
{
    assert forall|i: int, j: int| differ(u, same_u, i, j) == differ(w, same_w, i, j) by {}
    if v is Mismatch {
        let (i, j) = choose|i: int, j: int|
            #[trigger] is_first_mismatch(u, same_u, i, j) && origins[i] == v->first
                && origins[j] == v->second;
        assert(is_first_mismatch(w, same_w, i, j)) by {
            assert forall|a: int, b: int| tested_before(a, b, i, j) implies !differ(
                w,
                same_w,
                a,
                b,
            ) by {
                assert(!differ(u, same_u, a, b));
            }
        }
    }
}

/// Sorts each list by key, elements with equal keys left in their order.
pub fn sort_each<T: Keyed>(lists: Vec<Vec<T>>) -> (sorted: Vec<Vec<T>>)
    ensures
        sorted@.len() == lists@.len(),
        forall|i: int| 0 <= i < lists@.len() ==> sorted@[i]@ == sorted_by_key(lists@[i]@),
{
    let ghost orig = lists@;
    let mut rest = lists;
    let mut sorted: Vec<Vec<T>> = Vec::new();
    proof {
        assert(orig.skip(0) =~= orig);
    }
    while rest.len() > 0
        invariant
            sorted@.len() + rest@.len() == orig.len(),
            rest@ == orig.skip(sorted@.len() as int),
            forall|i: int| 0 <= i < sorted@.len() ==> sorted@[i]@ == sorted_by_key(orig[i]@),
        decreases rest@.len(),
    {
        let ghost done = sorted@.len() as int;
        let mut list = rest.remove(0);
        proof {
            assert(list == orig[done]);
            assert(rest@ =~= orig.skip(done + 1));
        }
        sort_by_key(&mut list);
        sorted.push(list);
    }
    sorted
}

/// The outcome of a run whose answers are compared as they are.
pub fn check_answers<T: PartialEq>(results: Vec<ProbeResult<T>>) -> (out: ProbeOutcome)
    requires
        T::obeys_eq_spec(),
    ensures
        is_outcome(results@, equality::<T>(), out),
{
    let (origins, values, mut latencies) = split_results(results);
    let median_latency = median(&mut latencies);
    let verdict = judge(&origins, &values);
    ProbeOutcome { succeeded: values.len(), median_latency, verdict }
}

/// The outcome of a run whose answers are lists: each list is sorted by key
/// before the lists are compared.
pub fn check_lists<T: PartialEq + Keyed>(results: Vec<ProbeResult<Vec<T>>>) -> (out:
    ProbeOutcome)
    requires
        T::obeys_eq_spec(),
    ensures
        is_outcome(results@, sorted_equality::<T>(), out),
{
    let (origins, values, mut latencies) = split_results(results);
    let median_latency = median(&mut latencies);
    let succeeded = values.len();
    let ghost unsorted = values@;
    let sorted = sort_each(values);
    let verdict = judge(&origins, &sorted);
    proof {
        assert forall|i: int, j: int| 0 <= i < j < sorted@.len() implies equality::<Vec<T>>()(
            sorted@[i],
            sorted@[j],
        ) == sorted_equality::<T>()(unsorted[i], unsorted[j]) by {
            let a = sorted@[i];
            let b = sorted@[j];
            assert(a@ == sorted_by_key(unsorted[i]@));
            assert(b@ == sorted_by_key(unsorted[j]@));
            if a.eq_spec(&b) {
                assert forall|k: int| 0 <= k < a@.len() implies #[trigger] a@[k].eq_spec(
                    &b@[k],
                ) by {
                    assert(a[k].eq_spec(&b[k]));
                }
            }
            if pointwise_equal(a@, b@) {
                assert forall|k: int| 0 <= k < a.len() implies #[trigger] a[k].eq_spec(&b[k]) by {
                    assert(a@[k].eq_spec(&b@[k]));
                }
            }
        }
        lemma_verdict_carries_over(
            origins@,
            sorted@,
            equality::<Vec<T>>(),
            unsorted,
            sorted_equality::<T>(),
            verdict,
        );
    }
    ProbeOutcome { succeeded, median_latency, verdict }
}

/// The outcome of a state-root probe: roots are equal when they are the same hash.
pub fn check_state_root(results: Vec<ProbeResult<Root>>) -> (out: ProbeOutcome)
    ensures
        is_outcome(results@, equality::<Root>(), out),
{
    check_answers(results)
}

/// The outcome of a finality-checkpoints probe: answers are equal when all
/// three checkpoints match.
pub fn check_finality_checkpoints(results: Vec<ProbeResult<FinalityCheckpointsExt>>) -> (out:
    ProbeOutcome)
    ensures
        is_outcome(results@, equality::<FinalityCheckpointsExt>(), out),
{
    check_answers(results)
}

/// The outcome of a block probe: blocks are equal when every part of them is.
pub fn check_block(results: Vec<ProbeResult<SignedBeaconBlock>>) -> (out: ProbeOutcome)
    ensures
        is_outcome(results@, equality::<SignedBeaconBlock>(), out),
{
    check_answers(results)
}

/// The outcome of a validators probe: each endpoint's list is sorted by
/// validator index, then the lists are compared entry by entry.
pub fn check_validators(results: Vec<ProbeResult<Vec<ValidatorSummaryExt>>>) -> (out:
    ProbeOutcome)
    ensures
        is_outcome(results@, sorted_equality::<ValidatorSummaryExt>(), out),
{
    check_lists(results)
}

/// The outcome of a balances probe: each endpoint's list is sorted by
/// validator index, then the lists are compared entry by entry.
pub fn check_balances(results: Vec<ProbeResult<Vec<BalanceSummaryExt>>>) -> (out: ProbeOutcome)
    ensures
        is_outcome(results@, sorted_equality::<BalanceSummaryExt>(), out),
{
    check_lists(results)
}

} // verus!
