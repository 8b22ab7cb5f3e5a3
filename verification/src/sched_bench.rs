use vstd::prelude::*;
use crate::runqueue;
use crate::runqueue::{SchedRunQueue, SCHED_PRIO_LEVELS, THREADS_NUMOF, rq_new, rq_add, rq_del, rq_get_next, rq_advance};

verus! {

/// The level the run-queue benchmarks put their threads on.
pub const BENCH_LEVEL: u8 = 5;

/// Makes thread `n` runnable at priority level `q`: it joins the tail of
/// that level unless it already waits somewhere.
pub fn add_thread(rq: &mut SchedRunQueue, n: u8, q: u8)
    requires
        runqueue::rq_wf(*old(rq)),
        n < THREADS_NUMOF,
        q < SCHED_PRIO_LEVELS,
    ensures
        runqueue::rq_wf(*final(rq)),
        runqueue::rq_queues(*final(rq)) == runqueue::add_model(runqueue::rq_queues(*old(rq)), n, q),
        runqueue::rq_ready(*final(rq)) == runqueue::rq_ready(*old(rq)).insert(q),
{
    proof {
        runqueue::lemma_add_wf(runqueue::rq_queues(*rq), runqueue::rq_ready(*rq), n, q);
    }
    rq_add(rq, n, q);
}

/// A run queue with every level empty and no ready bit set.
pub fn new_runqueue() -> (r: SchedRunQueue)
    ensures
        runqueue::rq_wf(r),
        runqueue::rq_queues(r) == runqueue::empty_queues(),
        runqueue::rq_ready(r) == Set::<u8>::empty(),
{
    proof {
        runqueue::lemma_empty_wf();
    }
    rq_new()
}

/// A fresh run queue with thread 0 added at the benchmark level: the body of
/// the `add` benchmark, and the set-up of the `get_next` and `pop_head` ones.
pub fn bench_add() -> (r: SchedRunQueue)
    ensures
        runqueue::rq_wf(r),
        runqueue::rq_queues(r) == runqueue::empty_queues().update(BENCH_LEVEL as int, seq![0u8]),
        runqueue::rq_ready(r) == set![BENCH_LEVEL],
{
    let mut rq = new_runqueue();
    add_thread(&mut rq, 0, BENCH_LEVEL);
    proof {
        assert(runqueue::empty_queues()[BENCH_LEVEL as int].push(0u8) =~= seq![0u8]);
        assert(Set::<u8>::empty().insert(BENCH_LEVEL) =~= set![BENCH_LEVEL]);
    }
    rq
}

/// A fresh run queue with threads 0 and 1 added, in that order, at the
/// benchmark level: the set-up of the `advance` benchmark.
pub fn setup_advance() -> (r: SchedRunQueue)
    ensures
        runqueue::rq_wf(r),
        runqueue::rq_queues(r) == runqueue::empty_queues().update(BENCH_LEVEL as int, seq![0u8, 1u8]),
        runqueue::rq_ready(r) == set![BENCH_LEVEL],
{
    let mut rq = bench_add();
    proof {
        assert(!runqueue::is_queued(runqueue::rq_queues(rq), 1));
    }
    add_thread(&mut rq, 1, BENCH_LEVEL);
    proof {
        assert(seq![0u8].push(1u8) =~= seq![0u8, 1u8]);
        assert(set![BENCH_LEVEL].insert(BENCH_LEVEL) =~= set![BENCH_LEVEL]);
        assert(runqueue::empty_queues().update(BENCH_LEVEL as int, seq![0u8]).update(BENCH_LEVEL as int, seq![0u8, 1u8])
            =~= runqueue::empty_queues().update(BENCH_LEVEL as int, seq![0u8, 1u8]));
    }
    rq
}

/// Yields within level `q`: its head moves to its tail.  The body of the
/// `advance` benchmark.
pub fn advance_runqueue(rq: &mut SchedRunQueue, q: u8)
    requires
        runqueue::rq_wf(*old(rq)),
        q < SCHED_PRIO_LEVELS,
    ensures
        runqueue::rq_wf(*final(rq)),
        runqueue::rq_queues(*final(rq)) == runqueue::advance_model(runqueue::rq_queues(*old(rq)), q),
        runqueue::rq_ready(*final(rq)) == runqueue::rq_ready(*old(rq)),
{
    proof {
        runqueue::lemma_advance_wf(runqueue::rq_queues(*rq), runqueue::rq_ready(*rq), q);
    }
    rq_advance(rq, q);
}

/// Removes thread `n`, the head of level `q`, and returns it: the body of
/// the `pop_head` benchmark.  The run queue only ever removes the head of a
/// level, and checks that it is the thread named.
pub fn pop_head(rq: &mut SchedRunQueue, n: u8, q: u8) -> (r: Option<u8>)
    requires
        runqueue::rq_wf(*old(rq)),
        q < SCHED_PRIO_LEVELS,
        runqueue::rq_queues(*old(rq))[q as int].len() > 0,
        runqueue::rq_queues(*old(rq))[q as int][0] == n,
    ensures
        r == Some(runqueue::rq_queues(*old(rq))[q as int][0]),
        runqueue::rq_wf(*final(rq)),
        runqueue::rq_queues(*final(rq)) == runqueue::del_model(runqueue::rq_queues(*old(rq)), q),
        runqueue::rq_ready(*final(rq)) == runqueue::del_ready(runqueue::rq_queues(*old(rq)), runqueue::rq_ready(*old(rq)), q),
{
    proof {
        runqueue::lemma_del_wf(runqueue::rq_queues(*rq), runqueue::rq_ready(*rq), q);
        let qs = runqueue::rq_queues(*rq);
        assert(qs[q as int][0] < THREADS_NUMOF);
    }
    rq_del(rq, n, q);
    Some(n)
}

/// The thread that should run next: the body of the `get_next` benchmark.
pub fn next_thread(rq: &SchedRunQueue) -> (r: Option<u8>)
    ensures
        r == runqueue::next_model(runqueue::rq_queues(*rq), runqueue::rq_ready(*rq)),
{
    rq_get_next(rq)
}

/// Two threads added at the benchmark level and both removed again, the
/// head first: the body of the `del` benchmark.  The run queue ends as a
/// new one.
pub fn bench_del() -> (r: SchedRunQueue)
    ensures
        runqueue::rq_wf(r),
        runqueue::rq_queues(r) == runqueue::empty_queues(),
        runqueue::rq_ready(r) == Set::<u8>::empty(),
{
    let mut rq = setup_advance();
    let _ = pop_head(&mut rq, 0, BENCH_LEVEL);
    proof {
        assert(seq![0u8, 1u8].drop_first() =~= seq![1u8]);
        assert(runqueue::rq_queues(rq)[BENCH_LEVEL as int] =~= seq![1u8]);
    }
    let _ = pop_head(&mut rq, 1, BENCH_LEVEL);
    proof {
        assert(seq![1u8].drop_first() =~= Seq::<u8>::empty());
        assert(runqueue::rq_queues(rq) =~= runqueue::empty_queues());
        assert(set![BENCH_LEVEL].remove(BENCH_LEVEL) =~= Set::<u8>::empty());
    }
    rq
}

} // verus!
