use vstd::prelude::*;

verus! {

/// Why a benchmark run produced no tick count.
#[derive(Debug, Clone, Copy, PartialEq, Eq, Structural)]
pub enum Error {
    /// The timer wrapped around while the benchmark ran.
    TimerWrapper,
    /// The benchmarking thread ended on another core than it started on.
    Migrated,
}

} // verus!
