# bench_multicore

Verified core of a set of scheduler benchmarks for a multicore embedded OS.

- `src/measure.rs`: ticks per iteration from timer or cycle-counter readings,
  and the refusal of runs that migrated between cores.
- `src/workload.rs`: the timed workloads (Fibonacci, counting, `u8` matrix
  multiplication) with their overflow conditions.
- `src/runqueue.rs`: a model of `riot-rs-runqueue`'s `RunQueue` (one FIFO per
  priority level plus ready bits), the trusted calls into it, and the laws
  proved over the model (invariant kept, round robin, priority order).
- `src/sched_bench.rs`: the run-queue benchmark bodies.
- `src/poll.rs`: the busy-polling task as a state machine over timer readings.
- `src/flags.rs`, `src/spinlock.rs`: thread-flag masks and the no-op lock.
- `app/`: timers, threads, logging and the `f32` Leibniz workload.
