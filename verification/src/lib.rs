//! Measurement and workload logic of the multicore scheduler benchmarks:
//! how a timer reading becomes ticks per iteration, the workloads the
//! benchmarks time, the scheduler run queue they exercise, and the flags the
//! benchmark threads signal each other with.

pub mod error;
pub mod flags;
pub mod measure;
pub mod poll;
pub mod runqueue;
pub mod sched_bench;
pub mod spinlock;
pub mod workload;
