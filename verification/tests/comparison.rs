use beacon_api_checker::compare::{first_mismatch, mismatched_responses};
use beacon_api_checker::types::{BalanceSummaryExt, Root};

fn root(b: u8) -> Root {
    Root { bytes: [b; 32] }
}

#[test]
fn no_answers_are_all_equal() {
    let v: Vec<Root> = vec![];
    assert_eq!(first_mismatch(&v), None);
    assert!(!mismatched_responses(&v));
}

#[test]
fn one_answer_is_all_equal() {
    let v = vec![root(1)];
    assert_eq!(first_mismatch(&v), None);
    assert!(!mismatched_responses(&v));
}

#[test]
fn identical_answers_are_all_equal() {
    let v = vec![root(7), root(7), root(7), root(7)];
    assert_eq!(first_mismatch(&v), None);
    assert!(!mismatched_responses(&v));
}

#[test]
fn first_mismatch_is_first_in_testing_order() {
    let v = vec![root(1), root(1), root(2), root(3)];
    assert_eq!(first_mismatch(&v), Some((0, 2)));
    assert!(mismatched_responses(&v));
    let w = vec![root(1), root(2), root(2), root(2)];
    assert_eq!(first_mismatch(&w), Some((0, 1)));
}

#[test]
fn mismatch_with_last_answer_is_found() {
    let v = vec![root(4), root(4), root(4), root(5)];
    assert_eq!(first_mismatch(&v), Some((0, 3)));
}

#[test]
fn lists_are_compared_entry_by_entry() {
    let a = vec![BalanceSummaryExt { index: 1, balance: 10 }, BalanceSummaryExt { index: 2, balance: 20 }];
    let b = vec![BalanceSummaryExt { index: 1, balance: 10 }, BalanceSummaryExt { index: 2, balance: 21 }];
    let c = vec![BalanceSummaryExt { index: 1, balance: 10 }];
    assert_eq!(first_mismatch(&vec![a.clone(), a.clone()]), None);
    assert_eq!(first_mismatch(&vec![a.clone(), a.clone(), b]), Some((0, 2)));
    assert_eq!(first_mismatch(&vec![a, c]), Some((0, 1)));
}
