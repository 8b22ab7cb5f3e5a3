use vstd::prelude::*;

verus! {

/// A lock that does not lock: the baseline against which the spinlock
/// benchmarks measure what locking costs.  Exclusive access comes from the
/// `&mut` borrow, so handing out the value needs no unsafe code.
pub struct Noop<T> {
    inner: T,
}

impl<T> Noop<T> {
    /// The value the lock guards.
    pub closed spec fn value(&self) -> T {
        self.inner
    }

    pub fn new(inner: T) -> (r: Self)
        ensures
            r.value() == inner,
    {
        Noop { inner }
    }

    /// Hands out the guarded value; what is written through the reference
    /// is the lock's value afterwards.
    pub fn lock(&mut self) -> (r: &mut T)
        ensures
            *r == old(self).value(),
            final(self).value() == *final(r),
    {
        &mut self.inner
    }
}

/// One step of the spinlock benchmark: take the lock and add one to the
/// counter it guards.
pub fn increment(counter: &mut Noop<usize>)
    requires
        old(counter).value() < usize::MAX,
    ensures
        final(counter).value() == old(counter).value() + 1,
{
    let c = counter.lock();
    *c = *c + 1;
}

/// The spinlock benchmark's `k` runs: each takes the lock and adds one, so
/// the counter ends `k` above where it started, no step lost or doubled.
pub fn increment_times(counter: &mut Noop<usize>, k: usize)
    requires
        old(counter).value() + k <= usize::MAX,
    ensures
        final(counter).value() == old(counter).value() + k,
{
    let mut done: usize = 0;
    while done < k
        invariant
            done <= k,
            counter.value() == old(counter).value() + done,
            old(counter).value() + k <= usize::MAX,
        decreases k - done,
    {
        increment(counter);
        done = done + 1;
    }
}

} // verus!
