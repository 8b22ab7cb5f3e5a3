use bench_multicore::poll::{BusyPoll, PollAction};

#[test]
fn one_millisecond_is_a_thousand_ticks_at_one_megahertz() {
    assert_eq!(BusyPoll::new(1, 1).delay_ticks(), 1_000);
    assert_eq!(BusyPoll::benchmark_task().delay_ticks(), 1_000);
    assert_eq!(BusyPoll::new(1, 7).delay_ticks(), 7_000);
}

#[test]
fn each_iteration_waits_its_delay() {
    let mut poll = BusyPoll::new(2, 1);
    assert!(!poll.waiting());
    assert_eq!(poll.step(0), PollAction::Spin);
    assert!(poll.waiting());
    assert_eq!(poll.step(500), PollAction::Spin);
    assert_eq!(poll.step(999), PollAction::Spin);
    assert_eq!(poll.step(1_000), PollAction::Spin);
    assert_eq!(poll.step(1_200), PollAction::Spin);
    assert_eq!(poll.step(2_199), PollAction::Spin);
    assert_eq!(poll.step(2_200), PollAction::Done);
    assert_eq!(poll.step(9_999), PollAction::Done);
}

#[test]
fn no_iterations_is_done_at_once() {
    let mut poll = BusyPoll::new(0, 1);
    assert_eq!(poll.step(0), PollAction::Done);
}
