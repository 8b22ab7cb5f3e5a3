use bench_multicore::error::Error;
use bench_multicore::measure::{add_sample, benchmark_outcome, cycles_per_iteration, per_iteration};

#[test]
fn per_iteration_rounds_down() {
    assert_eq!(per_iteration(10_000, 100), 100);
    assert_eq!(per_iteration(1_999, 1_000), 1);
    assert_eq!(per_iteration(7, 10), 0);
}

#[test]
fn cycles_per_iteration_divides_elapsed_cycles() {
    assert_eq!(cycles_per_iteration(1_000, 51_000, 1_000), Ok(50));
    assert_eq!(cycles_per_iteration(5, 5, 3), Ok(0));
    assert_eq!(cycles_per_iteration(0, u32::MAX, 1), Ok(u32::MAX as usize));
}

#[test]
fn cycles_per_iteration_reports_wrapped_counter() {
    assert_eq!(cycles_per_iteration(51_000, 1_000, 1_000), Err(Error::TimerWrapper));
    assert_eq!(cycles_per_iteration(1, 0, 1), Err(Error::TimerWrapper));
    assert_eq!(cycles_per_iteration(3_000, 1_000, 0), Err(Error::TimerWrapper));
}

#[test]
fn outcome_on_same_core_keeps_the_measurement() {
    assert_eq!(benchmark_outcome(0, Some(42), 0), Ok(42));
    assert_eq!(benchmark_outcome(1, None, 1), Err(Error::TimerWrapper));
}

#[test]
fn outcome_after_migration_is_refused() {
    assert_eq!(benchmark_outcome(0, Some(42), 1), Err(Error::Migrated));
    assert_eq!(benchmark_outcome(1, None, 0), Err(Error::Migrated));
}

#[test]
fn samples_add_up_and_failures_add_nothing() {
    let mut total = 0;
    total = add_sample(total, Ok(12));
    total = add_sample(total, Err(Error::TimerWrapper));
    total = add_sample(total, Ok(30));
    total = add_sample(total, Err(Error::Migrated));
    assert_eq!(total, 42);
    assert_eq!(per_iteration(total, 4), 10);
}
