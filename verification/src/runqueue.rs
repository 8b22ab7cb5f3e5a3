use vstd::prelude::*;
use riot_rs_runqueue::RunQueue;

verus! {

/// Number of priority levels of the scheduler.
pub const SCHED_PRIO_LEVELS: usize = 12;

/// Number of threads the scheduler can hold.
pub const THREADS_NUMOF: usize = 16;

#[verifier::external_type_specification]
#[verifier::external_body]
pub struct ExRunQueue<const N_QUEUES: usize, const N_THREADS: usize>(RunQueue<N_QUEUES, N_THREADS>);

/// The run queue of the scheduler: one circular list of thread ids per
/// priority level, and a bit per level that marks it as ready.
pub type SchedRunQueue = RunQueue<SCHED_PRIO_LEVELS, THREADS_NUMOF>;

/// The threads of each priority level of `rq`, from head to tail.
pub uninterp spec fn rq_queues(rq: RunQueue<SCHED_PRIO_LEVELS, THREADS_NUMOF>) -> Seq<Seq<u8>>;

/// The priority levels whose ready bit is set in `rq`.
pub uninterp spec fn rq_ready(rq: RunQueue<SCHED_PRIO_LEVELS, THREADS_NUMOF>) -> Set<u8>;

// ---------------------------------------------------------------------------
// The model

/// Every priority level empty.
pub open spec fn empty_queues() -> Seq<Seq<u8>> {
    Seq::new(SCHED_PRIO_LEVELS as nat, |r: int| Seq::<u8>::empty())
}

/// Thread `n` waits in some level of `qs`.
pub open spec fn is_queued(qs: Seq<Seq<u8>>, n: u8) -> bool {
    exists|r: int, i: int| 0 <= r < qs.len() && 0 <= i < qs[r].len() && #[trigger] qs[r][i] == n
}

/// One list per priority level, thread ids below the thread count, and no
/// thread in two places.
pub open spec fn queues_wf(qs: Seq<Seq<u8>>) -> bool {
    &&& qs.len() == SCHED_PRIO_LEVELS
    &&& forall|r: int, i: int| 0 <= r < qs.len() && 0 <= i < qs[r].len() ==> #[trigger] qs[r][i] < THREADS_NUMOF
    &&& forall|r1: int, i1: int, r2: int, i2: int|
        0 <= r1 < qs.len() && 0 <= i1 < qs[r1].len() && 0 <= r2 < qs.len() && 0 <= i2 < qs[r2].len()
            && #[trigger] qs[r1][i1] == #[trigger] qs[r2][i2] ==> r1 == r2 && i1 == i2
}

/// Ready bits only for existing levels, and set for every level that holds a
/// thread.
pub open spec fn ready_wf(qs: Seq<Seq<u8>>, ready: Set<u8>) -> bool {
    &&& forall|r: u8| #[trigger] ready.contains(r) ==> r < SCHED_PRIO_LEVELS
    &&& forall|r: int| 0 <= r < qs.len() && #[trigger] qs[r].len() > 0 ==> ready.contains(r as u8)
}

/// The invariant of every run queue the library holds.
pub open spec fn model_wf(qs: Seq<Seq<u8>>, ready: Set<u8>) -> bool {
    queues_wf(qs) && ready_wf(qs, ready)
}

pub open spec fn rq_wf(rq: SchedRunQueue) -> bool {
    model_wf(rq_queues(rq), rq_ready(rq))
}

/// `add`: a thread that waits nowhere goes to the tail of level `q`; a
/// thread that already waits somewhere stays where it is.
pub open spec fn add_model(qs: Seq<Seq<u8>>, n: u8, q: u8) -> Seq<Seq<u8>> {
    if is_queued(qs, n) {
        qs
    } else {
        qs.update(q as int, qs[q as int].push(n))
    }
}

/// `del`: the head of level `q` leaves it.
pub open spec fn del_model(qs: Seq<Seq<u8>>, q: u8) -> Seq<Seq<u8>> {
    qs.update(q as int, qs[q as int].drop_first())
}

/// The ready bits after `del` on level `q`: the bit is cleared when the
/// level ran empty.
pub open spec fn del_ready(qs: Seq<Seq<u8>>, ready: Set<u8>, q: u8) -> Set<u8> {
    if del_model(qs, q)[q as int].len() == 0 {
        ready.remove(q)
    } else {
        ready
    }
}

/// `advance`: the head of level `q` moves to its tail.
pub open spec fn advance_model(qs: Seq<Seq<u8>>, q: u8) -> Seq<Seq<u8>> {
    if qs[q as int].len() == 0 {
        qs
    } else {
        qs.update(q as int, qs[q as int].drop_first().push(qs[q as int][0]))
    }
}

/// The highest level below `k` whose ready bit is set.
pub open spec fn top_ready(ready: Set<u8>, k: int) -> Option<u8>
    decreases k,
{
    if k <= 0 {
        None
    } else if ready.contains((k - 1) as u8) {
        Some((k - 1) as u8)
    } else {
        top_ready(ready, k - 1)
    }
}

/// `get_next`: the head of the highest ready level, if that level holds a
/// thread.
pub open spec fn next_model(qs: Seq<Seq<u8>>, ready: Set<u8>) -> Option<u8> {
    match top_ready(ready, SCHED_PRIO_LEVELS as int) {
        Some(r) => if qs[r as int].len() > 0 {
            Some(qs[r as int][0])
        } else {
            None
        },
        None => None,
    }
}

// ---------------------------------------------------------------------------
// The calls into `riot_rs_runqueue`

/// `RunQueue::new`: every level empty, no ready bit set.
#[verifier::external_body]
pub(crate) fn rq_new() -> (r: SchedRunQueue)
    ensures
        rq_queues(r) == empty_queues(),
        rq_ready(r) == Set::<u8>::empty(),
{
    RunQueue::new()
}

/// `RunQueue::add`: sets the ready bit of level `q` and appends `n` to that
/// level unless `n` already waits in some level.
#[verifier::external_body]
pub(crate) fn rq_add(rq: &mut SchedRunQueue, n: u8, q: u8)
    requires
        n < THREADS_NUMOF,
        q < SCHED_PRIO_LEVELS,
    ensures
        rq_queues(*final(rq)) == add_model(rq_queues(*old(rq)), n, q),
        rq_ready(*final(rq)) == rq_ready(*old(rq)).insert(q),
{
    rq.add(n, q)
}

/// `RunQueue::del`: removes the head of level `q`, which must be `n` (the
/// crate asserts so), and clears the ready bit when the level ran empty.
#[verifier::external_body]
pub(crate) fn rq_del(rq: &mut SchedRunQueue, n: u8, q: u8)
    requires
        n < THREADS_NUMOF,
        q < SCHED_PRIO_LEVELS,
        rq_queues(*old(rq))[q as int].len() > 0,
        rq_queues(*old(rq))[q as int][0] == n,
    ensures
        rq_queues(*final(rq)) == del_model(rq_queues(*old(rq)), q),
        rq_ready(*final(rq)) == del_ready(rq_queues(*old(rq)), rq_ready(*old(rq)), q),
{
    rq.del(n, q)
}

/// `RunQueue::get_next`: the head of the highest level whose ready bit is
/// set, `None` where no bit is set or that level is empty.
#[verifier::external_body]
pub(crate) fn rq_get_next(rq: &SchedRunQueue) -> (r: Option<u8>)
    ensures
        r == next_model(rq_queues(*rq), rq_ready(*rq)),
{
    rq.get_next()
}

/// `RunQueue::advance`: moves the head of level `q` to its tail.
#[verifier::external_body]
pub(crate) fn rq_advance(rq: &mut SchedRunQueue, q: u8)
    requires
        q < SCHED_PRIO_LEVELS,
    ensures
        rq_queues(*final(rq)) == advance_model(rq_queues(*old(rq)), q),
        rq_ready(*final(rq)) == rq_ready(*old(rq)),
{
    rq.advance(q)
}

// ---------------------------------------------------------------------------
// What every operation keeps

/// A new run queue satisfies the invariant.
pub proof fn lemma_empty_wf()
    ensures
        model_wf(empty_queues(), Set::<u8>::empty()),
{
}

/// `add` keeps the invariant.
pub proof fn lemma_add_wf(qs: Seq<Seq<u8>>, ready: Set<u8>, n: u8, q: u8)
    requires
        model_wf(qs, ready),
        n < THREADS_NUMOF,
        q < SCHED_PRIO_LEVELS,
    ensures
        model_wf(add_model(qs, n, q), ready.insert(q)),
{
    if !is_queued(qs, n) {
        let nq = add_model(qs, n, q);
        let last = qs[q as int].len() as int;
        assert forall|r: int, i: int| 0 <= r < nq.len() && 0 <= i < nq[r].len()
            implies #[trigger] nq[r][i] < THREADS_NUMOF by {
            if r == q as int && i == last {
            } else {
                assert(nq[r][i] == qs[r][i]);
            }
        }
        assert forall|r1: int, i1: int, r2: int, i2: int|
            0 <= r1 < nq.len() && 0 <= i1 < nq[r1].len() && 0 <= r2 < nq.len() && 0 <= i2 < nq[r2].len()
                && #[trigger] nq[r1][i1] == #[trigger] nq[r2][i2] implies r1 == r2 && i1 == i2 by {
            let new1 = r1 == q as int && i1 == last;
            let new2 = r2 == q as int && i2 == last;
            if new1 && !new2 {
                assert(nq[r2][i2] == qs[r2][i2]);
                assert(qs[r2][i2] == n);
            } else if new2 && !new1 {
                assert(nq[r1][i1] == qs[r1][i1]);
                assert(qs[r1][i1] == n);
            } else if !new1 && !new2 {
                assert(nq[r1][i1] == qs[r1][i1]);
                assert(nq[r2][i2] == qs[r2][i2]);
            }
        }
        assert forall|r: int| 0 <= r < nq.len() && #[trigger] nq[r].len() > 0
            implies ready.insert(q).contains(r as u8) by {
            if r != q as int {
                assert(nq[r] == qs[r]);
            }
        }
    }
}

/// `del` keeps the invariant.
pub proof fn lemma_del_wf(qs: Seq<Seq<u8>>, ready: Set<u8>, q: u8)
    requires
        model_wf(qs, ready),
        q < SCHED_PRIO_LEVELS,
        qs[q as int].len() > 0,
    ensures
        model_wf(del_model(qs, q), del_ready(qs, ready, q)),
{
    let nq = del_model(qs, q);
    let nr = del_ready(qs, ready, q);
    assert forall|r: int, i: int| 0 <= r < nq.len() && 0 <= i < nq[r].len()
        implies #[trigger] nq[r][i] < THREADS_NUMOF by {
        if r == q as int {
            assert(nq[r][i] == qs[r][i + 1]);
        } else {
            assert(nq[r][i] == qs[r][i]);
        }
    }
    assert forall|r1: int, i1: int, r2: int, i2: int|
        0 <= r1 < nq.len() && 0 <= i1 < nq[r1].len() && 0 <= r2 < nq.len() && 0 <= i2 < nq[r2].len()
            && #[trigger] nq[r1][i1] == #[trigger] nq[r2][i2] implies r1 == r2 && i1 == i2 by {
        let j1 = if r1 == q as int { i1 + 1 } else { i1 };
        let j2 = if r2 == q as int { i2 + 1 } else { i2 };
        assert(nq[r1][i1] == qs[r1][j1]);
        assert(nq[r2][i2] == qs[r2][j2]);
    }
    assert forall|r: int| 0 <= r < nq.len() && #[trigger] nq[r].len() > 0
        implies nr.contains(r as u8) by {
        if r != q as int {
            assert(nq[r] == qs[r]);
        }
    }
}

/// `advance` keeps the invariant.
pub proof fn lemma_advance_wf(qs: Seq<Seq<u8>>, ready: Set<u8>, q: u8)
    requires
        model_wf(qs, ready),
        q < SCHED_PRIO_LEVELS,
    ensures
        model_wf(advance_model(qs, q), ready),
{
    if qs[q as int].len() > 0 {
        let nq = advance_model(qs, q);
        let len = qs[q as int].len() as int;
        // where each element of the advanced level came from
        assert forall|r: int, i: int| 0 <= r < nq.len() && 0 <= i < nq[r].len()
            implies #[trigger] nq[r][i] == qs[r][if r == q as int { if i + 1 < len { i + 1 } else { 0 } } else { i }] by {
        }
        assert forall|r: int, i: int| 0 <= r < nq.len() && 0 <= i < nq[r].len()
            implies #[trigger] nq[r][i] < THREADS_NUMOF by {
            let j = if r == q as int { if i + 1 < len { i + 1 } else { 0 } } else { i };
            assert(nq[r][i] == qs[r][j]);
        }
        assert forall|r1: int, i1: int, r2: int, i2: int|
            0 <= r1 < nq.len() && 0 <= i1 < nq[r1].len() && 0 <= r2 < nq.len() && 0 <= i2 < nq[r2].len()
                && #[trigger] nq[r1][i1] == #[trigger] nq[r2][i2] implies r1 == r2 && i1 == i2 by {
            let j1 = if r1 == q as int { if i1 + 1 < len { i1 + 1 } else { 0 } } else { i1 };
            let j2 = if r2 == q as int { if i2 + 1 < len { i2 + 1 } else { 0 } } else { i2 };
            assert(nq[r1][i1] == qs[r1][j1]);
            assert(nq[r2][i2] == qs[r2][j2]);
        }
        assert forall|r: int| 0 <= r < nq.len() && #[trigger] nq[r].len() > 0
            implies ready.contains(r as u8) by {
            if r != q as int {
                assert(nq[r] == qs[r]);
            }
        }
    }
}

// ---------------------------------------------------------------------------
// Laws of the scheduler's run queue

/// The run queue after advancing level `q` `k` times.
pub open spec fn advance_n(qs: Seq<Seq<u8>>, q: u8, k: nat) -> Seq<Seq<u8>>
    decreases k,
{
    if k == 0 {
        qs
    } else {
        advance_model(advance_n(qs, q, (k - 1) as nat), q)
    }
}

/// Advancing level `q` `k` times rotates it by `k` places and leaves the
/// other levels alone.
pub proof fn lemma_advance_n_rotates(qs: Seq<Seq<u8>>, q: u8, k: nat)
    requires
        q < qs.len(),
        k <= qs[q as int].len(),
    ensures
        advance_n(qs, q, k) == qs.update(
            q as int,
            qs[q as int].subrange(k as int, qs[q as int].len() as int) + qs[q as int].subrange(0, k as int),
        ),
    decreases k,
{
    let s = qs[q as int];
    if k == 0 {
        assert(s.subrange(0, s.len() as int) + s.subrange(0, 0) =~= s);
        assert(qs.update(q as int, s) =~= qs);
    } else {
        lemma_advance_n_rotates(qs, q, (k - 1) as nat);
        let prev = s.subrange(k - 1, s.len() as int) + s.subrange(0, k - 1);
        assert(prev[0] == s[k - 1]);
        assert(prev.drop_first().push(prev[0]) =~= s.subrange(k as int, s.len() as int) + s.subrange(0, k as int));
        assert(qs.update(q as int, prev).update(q as int, prev.drop_first().push(prev[0]))
            =~= qs.update(q as int, s.subrange(k as int, s.len() as int) + s.subrange(0, k as int)));
    }
}

/// Round robin: advancing a level as many times as it holds threads gives
/// every thread of it one turn and brings back the order it started with.
pub proof fn law_advance_round_robin(qs: Seq<Seq<u8>>, ready: Set<u8>, q: u8)
    requires
        model_wf(qs, ready),
        q < SCHED_PRIO_LEVELS,
    ensures
        advance_n(qs, q, qs[q as int].len()) == qs,
        forall|k: nat| k < qs[q as int].len() ==> (#[trigger] advance_n(qs, q, k))[q as int][0] == qs[q as int][k as int],
{
    let s = qs[q as int];
    lemma_advance_n_rotates(qs, q, s.len());
    assert(s.subrange(s.len() as int, s.len() as int) + s.subrange(0, s.len() as int) =~= s);
    assert(qs.update(q as int, s) =~= qs);
    assert forall|k: nat| k < s.len() implies (#[trigger] advance_n(qs, q, k))[q as int][0] == s[k as int] by {
        lemma_advance_n_rotates(qs, q, k);
    }
}

/// A thread that waits somewhere already is not added a second time.
pub proof fn law_add_idempotent(qs: Seq<Seq<u8>>, n: u8, q: u8, q2: u8)
    requires
        queues_wf(qs),
        q < SCHED_PRIO_LEVELS,
    ensures
        is_queued(add_model(qs, n, q), n),
        add_model(add_model(qs, n, q), n, q2) == add_model(qs, n, q),
{
    if !is_queued(qs, n) {
        let nq = add_model(qs, n, q);
        let i = qs[q as int].len() as int;
        assert(nq[q as int][i] == n);
    }
}

/// Adding a thread to an empty level and deleting the head of that level
/// gives the levels back as they were; the level's ready bit ends cleared.
pub proof fn law_add_then_del(qs: Seq<Seq<u8>>, ready: Set<u8>, n: u8, q: u8)
    requires
        model_wf(qs, ready),
        n < THREADS_NUMOF,
        q < SCHED_PRIO_LEVELS,
        !is_queued(qs, n),
        qs[q as int].len() == 0,
    ensures
        add_model(qs, n, q)[q as int][0] == n,
        del_model(add_model(qs, n, q), q) == qs,
        del_ready(add_model(qs, n, q), ready.insert(q), q) == ready.remove(q),
{
    let added = add_model(qs, n, q);
    assert(added[q as int] =~= seq![n]);
    assert(added[q as int].drop_first() =~= qs[q as int]);
    assert(del_model(added, q) =~= qs);
    assert(ready.insert(q).remove(q) =~= ready.remove(q));
}

/// What `top_ready` finds: a set bit with no set bit above it below `k`, or
/// nothing where no bit below `k` is set.
pub proof fn lemma_top_ready(ready: Set<u8>, k: int)
    requires
        0 <= k <= 256,
    ensures
        match top_ready(ready, k) {
            Some(r) => r < k && ready.contains(r) && forall|x: u8| r < x < k ==> !ready.contains(x),
            None => forall|x: u8| x < k ==> !ready.contains(x),
        },
    decreases k,
{
    if k > 0 {
        lemma_top_ready(ready, k - 1);
    }
}

/// `get_next` only names a thread at the head of a ready level.
pub proof fn law_next_is_waiting_head(qs: Seq<Seq<u8>>, ready: Set<u8>)
    requires
        model_wf(qs, ready),
    ensures
        next_model(qs, ready) matches Some(t) ==> exists|r: u8| r < SCHED_PRIO_LEVELS && #[trigger] ready.contains(r)
            && qs[r as int].len() > 0 && qs[r as int][0] == t,
        next_model(qs, ready) matches Some(t) ==> is_queued(qs, t),
{
    lemma_top_ready(ready, SCHED_PRIO_LEVELS as int);
    if let Some(r) = top_ready(ready, SCHED_PRIO_LEVELS as int) {
        if qs[r as int].len() > 0 {
            assert(ready.contains(r));
        }
    }
}

/// Priority: where the ready bits mark exactly the levels that hold
/// threads, `get_next` names the head of the highest level that holds a
/// thread, and nothing only where every level is empty.
pub proof fn law_next_highest_priority(qs: Seq<Seq<u8>>, ready: Set<u8>)
    requires
        model_wf(qs, ready),
        forall|r: u8| r < SCHED_PRIO_LEVELS ==> (#[trigger] ready.contains(r) <==> qs[r as int].len() > 0),
    ensures
        next_model(qs, ready) is None <==> forall|r: int| 0 <= r < SCHED_PRIO_LEVELS ==> #[trigger] qs[r].len() == 0,
        next_model(qs, ready) matches Some(t) ==> exists|r: u8| r < SCHED_PRIO_LEVELS && qs[r as int].len() > 0
            && #[trigger] qs[r as int][0] == t
            && forall|x: int| r < x < SCHED_PRIO_LEVELS ==> #[trigger] qs[x].len() == 0,
{
    lemma_top_ready(ready, SCHED_PRIO_LEVELS as int);
    match top_ready(ready, SCHED_PRIO_LEVELS as int) {
        Some(r) => {
            assert(qs[r as int].len() > 0);
            assert forall|x: int| r < x < SCHED_PRIO_LEVELS implies #[trigger] qs[x].len() == 0 by {
                assert(!ready.contains(x as u8));
            }
        },
        None => {
            assert forall|r: int| 0 <= r < SCHED_PRIO_LEVELS implies #[trigger] qs[r].len() == 0 by {
                assert(!ready.contains(r as u8));
            }
        },
    }
}

} // verus!
