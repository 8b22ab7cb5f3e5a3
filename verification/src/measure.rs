use vstd::prelude::*;
use crate::error::Error;

verus! {

/// Average of `total` ticks over `iterations` runs, rounded down.
pub fn per_iteration(total: usize, iterations: usize) -> (r: usize)
    requires
        iterations > 0,
    ensures
        r == total / iterations,
        r * iterations <= total < (r + 1) * iterations,
{
    let r = total / iterations;
    proof {
        vstd::arithmetic::div_mod::lemma_fundamental_div_mod(total as int, iterations as int);
        assert(r * iterations <= total < (r + 1) * iterations) by (nonlinear_arith)
            requires
                total == iterations * (total / iterations) + total % iterations,
                0 <= total % iterations < iterations,
                r == total / iterations,
        ;
    }
    r
}

/// Cycles spent per iteration, from the cycle counter read before and after
/// the runs.  A counter that went backwards has wrapped around, and no
/// count can be given; only an elapsed count is divided by `iterations`.
pub fn cycles_per_iteration(before: u32, after: u32, iterations: usize) -> (r: Result<usize, Error>)
    requires
        before <= after ==> iterations > 0,
    ensures
        before <= after ==> r == Ok::<usize, Error>(((after - before) / (iterations as int)) as usize),
        after < before ==> r == Err::<usize, Error>(Error::TimerWrapper),
{
    match after.checked_sub(before) {
        Some(total) => Ok(per_iteration(total as usize, iterations)),
        None => Err(Error::TimerWrapper),
    }
}

/// The result of a benchmark run, given the core the benchmarking thread
/// ran on before and after the run and the tick count the timer gave
/// (`None` where the timer failed).  A thread that moved to another core
/// measured two cores, so its count is refused.
pub fn benchmark_outcome(core_before: u8, measured: Option<usize>, core_after: u8) -> (r: Result<usize, Error>)
    ensures
        core_before != core_after ==> r == Err::<usize, Error>(Error::Migrated),
        core_before == core_after ==> r == match measured {
            Some(ticks) => Ok::<usize, Error>(ticks),
            None => Err::<usize, Error>(Error::TimerWrapper),
        },
{
    let res = match measured {
        Some(ticks) => Ok(ticks),
        None => Err(Error::TimerWrapper),
    };
    if core_before != core_after {
        return Err(Error::Migrated);
    }
    res
}

/// Adds the ticks of one sampled run to a running total; a failed run adds
/// nothing.
pub fn add_sample(total: usize, outcome: Result<usize, Error>) -> (r: usize)
    requires
        outcome matches Ok(t) ==> total + t <= usize::MAX,
    ensures
        r == match outcome {
            Ok(t) => total + t,
            Err(_) => total as int,
        },
{
    match outcome {
        Ok(t) => total + t,
        Err(_) => total,
    }
}

} // verus!
