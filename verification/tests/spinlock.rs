use bench_multicore::spinlock::{increment, increment_times, Noop};

#[test]
fn lock_hands_out_the_value() {
    let mut lock = Noop::new(5usize);
    assert_eq!(*lock.lock(), 5);
    *lock.lock() = 9;
    assert_eq!(*lock.lock(), 9);
}

#[test]
fn increment_counts() {
    let mut counter = Noop::new(0usize);
    for _ in 0..100_000 {
        increment(&mut counter);
    }
    assert_eq!(*counter.lock(), 100_000);
}

#[test]
fn k_increments_add_k() {
    let mut counter = Noop::new(0usize);
    increment_times(&mut counter, 100_000);
    assert_eq!(*counter.lock(), 100_000);
    increment_times(&mut counter, 0);
    assert_eq!(*counter.lock(), 100_000);
    let mut near_max = Noop::new(usize::MAX - 3);
    increment_times(&mut near_max, 3);
    assert_eq!(*near_max.lock(), usize::MAX);
}
