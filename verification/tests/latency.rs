use beacon_api_checker::latency::median;
use beacon_api_checker::order::sort_by_key;

#[test]
fn median_of_nothing_is_zero() {
    let mut v: Vec<u64> = vec![];
    assert_eq!(median(&mut v), 0);
    assert!(v.is_empty());
}

#[test]
fn median_of_one_value_is_that_value() {
    let mut v: Vec<u64> = vec![42];
    assert_eq!(median(&mut v), 42);
}

#[test]
fn median_of_odd_count_is_middle_of_sorted() {
    let mut v: Vec<u64> = vec![30, 10, 20];
    assert_eq!(median(&mut v), 20);
    assert_eq!(v, vec![10, 20, 30]);
    let mut w: Vec<u64> = vec![9, 1, 8, 2, 7];
    assert_eq!(median(&mut w), 7);
}

#[test]
fn median_of_even_count_is_mean_of_two_middle() {
    let mut v: Vec<u64> = vec![40, 10, 30, 20];
    assert_eq!(median(&mut v), 25);
    assert_eq!(v, vec![10, 20, 30, 40]);
}

#[test]
fn median_of_even_count_rounds_down() {
    let mut v: Vec<u64> = vec![2, 1];
    assert_eq!(median(&mut v), 1);
    let mut w: Vec<u64> = vec![10, 13];
    assert_eq!(median(&mut w), 11);
}

#[test]
fn median_of_largest_values_does_not_overflow() {
    let mut v: Vec<u64> = vec![u64::MAX, u64::MAX];
    assert_eq!(median(&mut v), u64::MAX);
    let mut w: Vec<u64> = vec![u64::MAX, u64::MAX - 2];
    assert_eq!(median(&mut w), u64::MAX - 1);
}

#[test]
fn median_does_not_depend_on_order() {
    let mut a: Vec<u64> = vec![5, 3, 9, 1];
    let mut b: Vec<u64> = vec![1, 9, 3, 5];
    assert_eq!(median(&mut a), median(&mut b));
    assert_eq!(a, b);
}

#[test]
fn median_with_repeated_values() {
    let mut v: Vec<u64> = vec![7, 7, 7, 1];
    assert_eq!(median(&mut v), 7);
}

#[test]
fn sort_by_key_orders_numbers() {
    let mut v: Vec<u64> = vec![3, 1, 2, 1, 0];
    sort_by_key(&mut v);
    assert_eq!(v, vec![0, 1, 1, 2, 3]);
}
