use vstd::prelude::*;
use vstd::arithmetic::power2::pow2;

verus! {

/// The flag that starts the benchmarking thread.
pub const START_FLAG: u16 = 0b1;

/// The flags either of which starts a timer task.
pub const TASK_START_MASK: u16 = 0b110;

/// The flag the busy-polling task raises when its last iteration is over.
pub const POLL_DONE_FLAG: u16 = 0b10;

/// The flags the benchmarking thread waits for: one per timer task.
pub const TASKS_DONE_MASK: u16 = 0b11;

/// The flag timer task `id` raises on the benchmarking thread when it is
/// done: bit `id`.
pub fn task_done_flag(id: usize) -> (r: u16)
    requires
        id < 16,
    ensures
        r == pow2(id as nat),
{
    let shift = id as u16;
    proof {
        vstd::arithmetic::power2::lemma_pow2_strictly_increases(shift as nat, 16);
        vstd::arithmetic::power2::lemma2_to64();
        vstd::bits::lemma_u16_shl_is_mul(1, shift);
    }
    1u16 << shift
}

/// Whether any flag of `mask` is raised in `flags`.
pub fn flag_raised(flags: u16, mask: u16) -> (r: bool)
    ensures
        r == (flags & mask != 0),
{
    flags & mask != 0
}

/// Whether every flag of `mask` is raised in `flags`.
pub fn flags_all_raised(flags: u16, mask: u16) -> (r: bool)
    ensures
        r == (flags & mask == mask),
{
    flags & mask == mask
}

/// The done flags of timer tasks 0 and 1 are distinct, and once both are
/// raised the benchmarking thread, which waits for `TASKS_DONE_MASK`, sees
/// all it waits for; with either missing it keeps waiting.
pub proof fn law_task_flags_complete(flags: u16)
    ensures
        pow2(0) != pow2(1),
        pow2(0) + pow2(1) == TASKS_DONE_MASK,
        (flags & TASKS_DONE_MASK == TASKS_DONE_MASK) <==> (flags & 1u16 != 0 && flags & 2u16 != 0),
{
    vstd::arithmetic::power2::lemma2_to64();
    assert((flags & 3u16 == 3u16) <==> (flags & 1u16 != 0 && flags & 2u16 != 0)) by (bit_vector);
}

} // verus!
