use redis_clone::metrics::{p50_nanos, sorted_latencies};

#[test]
fn p50_of_no_latencies_is_zero() {
    assert_eq!(p50_nanos(&[]), 0);
}

#[test]
fn p50_of_odd_count_is_middle() {
    assert_eq!(p50_nanos(&[5]), 5);
    assert_eq!(p50_nanos(&[30, 10, 20]), 20);
}

#[test]
fn p50_of_even_count_is_floor_of_mean_of_middle_pair() {
    assert_eq!(p50_nanos(&[10, 20]), 15);
    assert_eq!(p50_nanos(&[4, 1, 3, 2]), 2);
}

#[test]
fn p50_does_not_overflow_on_large_values() {
    assert_eq!(p50_nanos(&[u64::MAX, u64::MAX]), u64::MAX);
    assert_eq!(p50_nanos(&[u64::MAX, u64::MAX - 1]), u64::MAX - 1);
}

#[test]
fn sorted_latencies_keeps_duplicates_in_order() {
    assert_eq!(sorted_latencies(&[3, 1, 2, 1]), vec![1, 1, 2, 3]);
    assert_eq!(sorted_latencies(&[]), Vec::<u64>::new());
}
