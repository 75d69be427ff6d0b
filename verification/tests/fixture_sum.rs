use swarm_ci::fixture::sum;

#[test]
fn sums_all_elements() {
    assert_eq!(sum(&[1, 2, 3]), 6);
}

#[test]
fn sums_single_element() {
    assert_eq!(sum(&[5]), 5);
}

#[test]
fn sums_empty_and_negative_slices() {
    assert_eq!(sum(&[]), 0);
    assert_eq!(sum(&[-4, 10, -6]), 0);
    assert_eq!(sum(&[i64::MAX, -1]), i64::MAX - 1);
}
