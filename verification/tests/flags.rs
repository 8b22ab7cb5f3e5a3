use bench_multicore::flags::{
    flag_raised, flags_all_raised, task_done_flag, POLL_DONE_FLAG, START_FLAG, TASKS_DONE_MASK, TASK_START_MASK,
};

#[test]
fn task_done_flags_are_single_bits() {
    assert_eq!(task_done_flag(0), 0b1);
    assert_eq!(task_done_flag(1), 0b10);
    assert_eq!(task_done_flag(15), 0x8000);
}

#[test]
fn both_tasks_done_completes_the_mask() {
    let flags = task_done_flag(0) | task_done_flag(1);
    assert_eq!(flags, TASKS_DONE_MASK);
    assert!(flags_all_raised(flags, TASKS_DONE_MASK));
    assert!(!flags_all_raised(task_done_flag(0), TASKS_DONE_MASK));
    assert!(!flags_all_raised(task_done_flag(1), TASKS_DONE_MASK));
}

#[test]
fn raised_flags() {
    assert!(!flag_raised(0, START_FLAG));
    assert!(flag_raised(0b1, START_FLAG));
    assert!(flag_raised(0b100, TASK_START_MASK));
    assert!(!flag_raised(0b1, TASK_START_MASK));
    assert!(flag_raised(0b11, POLL_DONE_FLAG));
    assert!(!flag_raised(0b01, POLL_DONE_FLAG));
}
