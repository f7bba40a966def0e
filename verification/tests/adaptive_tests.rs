use squid_downloader::adaptive::AdaptiveConcurrency;

#[test]
fn starts_with_a_quarter_of_the_limit() {
    let a = AdaptiveConcurrency::new(16);
    assert_eq!(a.get_concurrent(), 4);
    assert_eq!(a.max_concurrent(), 16);
    assert_eq!(a.permits_issued(), 4);
    assert_eq!(a.semaphore().available_permits(), 4);
}

#[test]
fn starts_with_at_least_two_slots() {
    assert_eq!(AdaptiveConcurrency::new(4).get_concurrent(), 2);
    assert_eq!(AdaptiveConcurrency::new(0).get_concurrent(), 2);
    assert_eq!(AdaptiveConcurrency::new(11).get_concurrent(), 2);
}

#[test]
fn five_successes_grow_by_a_quarter_of_the_headroom() {
    let mut a = AdaptiveConcurrency::new(16);
    for _ in 0..4 {
        a.on_success();
    }
    assert_eq!(a.get_concurrent(), 4);
    assert_eq!(a.success_streak(), 4);
    a.on_success();
    assert_eq!(a.get_concurrent(), 7);
    assert_eq!(a.success_streak(), 0);
    assert_eq!(a.permits_issued(), 7);
    assert_eq!(a.semaphore().available_permits(), 7);
}

#[test]
fn growth_adds_at_least_one_and_stops_at_the_limit() {
    let mut a = AdaptiveConcurrency::new(9);
    assert_eq!(a.get_concurrent(), 2);
    let mut seen = vec![];
    for _ in 0..40 {
        a.on_success();
        seen.push(a.get_concurrent());
    }
    assert!(seen.iter().all(|&c| c <= 9));
    assert_eq!(a.get_concurrent(), 9);
    assert_eq!(seen[4], 3);
}

#[test]
fn third_failure_in_a_row_halves() {
    let mut a = AdaptiveConcurrency::new(40);
    assert_eq!(a.get_concurrent(), 10);
    a.on_failure();
    a.on_failure();
    assert_eq!(a.get_concurrent(), 10);
    assert_eq!(a.failure_streak(), 2);
    a.on_failure();
    assert_eq!(a.get_concurrent(), 5);
    a.on_failure();
    assert_eq!(a.get_concurrent(), 2);
    a.on_failure();
    assert_eq!(a.get_concurrent(), 1);
    a.on_failure();
    assert_eq!(a.get_concurrent(), 1);
    assert_eq!(a.permits_issued(), 10);
}

#[test]
fn success_ends_a_failure_run() {
    let mut a = AdaptiveConcurrency::new(40);
    a.on_failure();
    a.on_failure();
    a.on_success();
    assert_eq!(a.failure_streak(), 0);
    a.on_failure();
    a.on_failure();
    assert_eq!(a.get_concurrent(), 10);
}
