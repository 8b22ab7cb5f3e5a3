use vstd::prelude::*;
use embassy_time::Duration;

verus! {

/// Iterations of the busy-polling task.
pub const POLL_ITERATIONS: usize = 100;

/// The delay each iteration of the busy-polling task waits, in milliseconds.
pub const POLL_DELAY_MS: u64 = 1;

/// The number of timer ticks `embassy_time::Duration::from_millis(millis)`
/// stands for.  It depends on the tick rate the build selected.
pub uninterp spec fn ticks_from_millis(millis: u64) -> u64;

/// `Duration::from_millis(millis).as_ticks()`: the tick count of a duration
/// of `millis` milliseconds.  `from_millis` multiplies `millis` by the tick
/// rate, so `millis` is bounded to keep that product below `u64::MAX` at
/// every tick rate the crate offers (at most 5_242_880_000 Hz).
#[verifier::external_body]
fn millis_to_ticks(millis: u64) -> (r: u64)
    requires
        millis <= 1_000_000_000,
    ensures
        r == ticks_from_millis(millis),
{
    Duration::from_millis(millis).as_ticks()
}

/// What the busy-polling task does after reading the time.
#[derive(Debug, Clone, Copy, PartialEq, Eq, Structural)]
pub enum PollAction {
    /// Read the time again.
    Spin,
    /// All iterations are over: raise the done flag.
    Done,
}

/// The state of the busy-polling task: the iterations still to wait, the
/// tick at which the running one ends (none while no iteration runs), and
/// the length of one iteration in ticks.
pub struct BusyPoll {
    remaining: usize,
    expires: Option<u64>,
    delay_ticks: u64,
}

impl BusyPoll {
    pub closed spec fn remaining(&self) -> nat {
        self.remaining as nat
    }

    pub closed spec fn expires(&self) -> Option<u64> {
        self.expires
    }

    pub closed spec fn delay(&self) -> u64 {
        self.delay_ticks
    }

    /// An iteration runs only while some are left.
    pub closed spec fn wf(&self) -> bool {
        self.expires is Some ==> self.remaining > 0
    }

    /// A task that waits `iterations` times for `delay_ms` milliseconds.
    pub fn new(iterations: usize, delay_ms: u64) -> (r: Self)
        requires
            delay_ms <= 1_000_000_000,
        ensures
            r.wf(),
            r.remaining() == iterations,
            r.expires() is None,
            r.delay() == ticks_from_millis(delay_ms),
    {
        BusyPoll { remaining: iterations, expires: None, delay_ticks: millis_to_ticks(delay_ms) }
    }

    /// The task of the busy-poll benchmark: `POLL_ITERATIONS` waits of
    /// `POLL_DELAY_MS`.
    pub fn benchmark_task() -> (r: Self)
        ensures
            r.wf(),
            r.remaining() == POLL_ITERATIONS,
            r.expires() is None,
            r.delay() == ticks_from_millis(POLL_DELAY_MS),
    {
        Self::new(POLL_ITERATIONS, POLL_DELAY_MS)
    }

    /// The length of one iteration in ticks.
    pub fn delay_ticks(&self) -> (r: u64)
        ensures
            r == self.delay(),
    {
        self.delay_ticks
    }

    /// Whether an iteration is running, so that the next reading is
    /// compared with its end rather than starting a new one.
    pub fn waiting(&self) -> (r: bool)
        ensures
            r == (self.expires() is Some),
    {
        self.expires.is_some()
    }

    /// Handles one reading `now` of the timer.  With no iteration running, a
    /// new one starts and ends `delay` ticks from `now`; a running one ends
    /// once `now` has reached its end.
    pub fn step(&mut self, now: u64) -> (r: PollAction)
        requires
            old(self).wf(),
            old(self).expires() is None && old(self).remaining() > 0 ==> now + old(self).delay() <= u64::MAX,
        ensures
            final(self).wf(),
            final(self).delay() == old(self).delay(),
            match old(self).expires() {
                None => if old(self).remaining() == 0 {
                    r == PollAction::Done && final(self).remaining() == 0 && final(self).expires() is None
                } else {
                    r == PollAction::Spin && final(self).remaining() == old(self).remaining()
                        && final(self).expires() == Some((now + old(self).delay()) as u64)
                },
                Some(e) => if now < e {
                    r == PollAction::Spin && final(self).remaining() == old(self).remaining()
                        && final(self).expires() == Some(e)
                } else {
                    final(self).remaining() == old(self).remaining() - 1 && final(self).expires() is None
                        && (r == PollAction::Done <==> final(self).remaining() == 0)
                },
            },
    {
        match self.expires {
            None => {
                if self.remaining == 0 {
                    PollAction::Done
                } else {
                    self.expires = Some(now + self.delay_ticks);
                    PollAction::Spin
                }
            },
            Some(e) => {
                if now < e {
                    PollAction::Spin
                } else {
                    self.remaining = self.remaining - 1;
                    self.expires = None;
                    if self.remaining == 0 {
                        PollAction::Done
                    } else {
                        PollAction::Spin
                    }
                }
            },
        }
    }
}

} // verus!
