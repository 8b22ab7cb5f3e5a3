use bench_multicore::sched_bench::{
    add_thread, advance_runqueue, bench_add, bench_del, new_runqueue, pop_head, next_thread, setup_advance, BENCH_LEVEL,
};

#[test]
fn added_thread_runs_next() {
    let rq = bench_add();
    assert_eq!(next_thread(&rq), Some(0));
    assert_eq!(next_thread(&rq), Some(0));
}

#[test]
fn advance_alternates_between_two_threads() {
    let mut rq = setup_advance();
    assert_eq!(next_thread(&rq), Some(0));
    advance_runqueue(&mut rq, BENCH_LEVEL);
    assert_eq!(next_thread(&rq), Some(1));
    advance_runqueue(&mut rq, BENCH_LEVEL);
    assert_eq!(next_thread(&rq), Some(0));
}

#[test]
fn advance_of_an_empty_level_changes_nothing() {
    let mut rq = bench_add();
    advance_runqueue(&mut rq, 3);
    assert_eq!(next_thread(&rq), Some(0));
    advance_runqueue(&mut rq, BENCH_LEVEL);
    assert_eq!(next_thread(&rq), Some(0));
}

#[test]
fn deleting_both_threads_empties_the_queue() {
    let rq = bench_del();
    assert_eq!(next_thread(&rq), None);
}

#[test]
fn deleting_the_head_lets_the_next_thread_run() {
    let mut rq = setup_advance();
    assert_eq!(pop_head(&mut rq, 0, BENCH_LEVEL), Some(0));
    assert_eq!(next_thread(&rq), Some(1));
    assert_eq!(pop_head(&mut rq, 1, BENCH_LEVEL), Some(1));
    assert_eq!(next_thread(&rq), None);
}

#[test]
fn pop_head_benchmark_body() {
    let mut rq = bench_add();
    assert_eq!(pop_head(&mut rq, 0, BENCH_LEVEL), Some(0));
    assert_eq!(next_thread(&rq), None);
}

#[test]
fn higher_level_runs_first() {
    let mut rq = bench_add();
    add_thread(&mut rq, 3, 7);
    assert_eq!(next_thread(&rq), Some(3));
    add_thread(&mut rq, 2, 1);
    assert_eq!(next_thread(&rq), Some(3));
    assert_eq!(pop_head(&mut rq, 3, 7), Some(3));
    assert_eq!(next_thread(&rq), Some(0));
    assert_eq!(pop_head(&mut rq, 0, BENCH_LEVEL), Some(0));
    assert_eq!(next_thread(&rq), Some(2));
}

#[test]
fn adding_a_waiting_thread_again_changes_no_level() {
    let mut rq = bench_del();
    add_thread(&mut rq, 4, 2);
    add_thread(&mut rq, 4, 2);
    assert_eq!(next_thread(&rq), Some(4));
    assert_eq!(pop_head(&mut rq, 4, 2), Some(4));
    assert_eq!(next_thread(&rq), None);
}

#[test]
fn adding_a_waiting_thread_elsewhere_only_sets_the_ready_bit() {
    let mut rq = bench_add();
    add_thread(&mut rq, 0, 9);
    // level 9 is marked ready but holds no thread
    assert_eq!(next_thread(&rq), None);
}

#[test]
fn round_robin_over_three_threads() {
    let mut rq = setup_advance();
    add_thread(&mut rq, 2, BENCH_LEVEL);
    let mut seen = Vec::new();
    for _ in 0..6 {
        seen.push(next_thread(&rq).unwrap());
        advance_runqueue(&mut rq, BENCH_LEVEL);
    }
    assert_eq!(seen, vec![0, 1, 2, 0, 1, 2]);
}

#[test]
fn new_runqueue_has_nothing_to_run() {
    let mut rq = new_runqueue();
    assert_eq!(next_thread(&rq), None);
    add_thread(&mut rq, 7, 11);
    assert_eq!(next_thread(&rq), Some(7));
    assert_eq!(pop_head(&mut rq, 7, 11), Some(7));
    assert_eq!(next_thread(&rq), None);
}
