//! How many mining threads a machine runs.
//!
//! Two logical cores are left to the rest of the machine, every thread takes
//! 2.1 GB of memory, and there is at least one thread. The user's limit comes
//! on top of that.

use vstd::prelude::*;

verus! {

/// Bytes in a gigabyte, as memory is counted here.
pub const BYTES_PER_GB: u64 = 1073741824;

/// Memory per mining thread, in tenths of a gigabyte.
pub const RAM_PER_THREAD_TENTHS_GB: u64 = 21;

/// Logical cores that are left to the rest of the machine.
pub const RESERVED_CORES: u32 = 2;

/// The smaller of two numbers.
pub open spec fn min(a: int, b: int) -> int {
    if a <= b {
        a
    } else {
        b
    }
}

/// The larger of two numbers.
pub open spec fn max(a: int, b: int) -> int {
    if a <= b {
        b
    } else {
        a
    }
}

/// The threads that the cores allow. The number of cores is kept in 32 bits.
pub open spec fn threads_by_cores(logical_cores: int) -> int {
    max((logical_cores % 0x1_0000_0000) - RESERVED_CORES, 0)
}

/// The threads that the memory allows: its whole gigabytes, divided by what a
/// thread takes. The number of threads is kept in 32 bits and stops at the
/// largest one.
pub open spec fn threads_by_memory(total_memory: int) -> int {
    min(10 * (total_memory / BYTES_PER_GB as int) / RAM_PER_THREAD_TENTHS_GB as int, u32::MAX as int)
}

/// The threads that the machine allows.
pub open spec fn threads_by_machine(logical_cores: int, total_memory: int) -> int {
    max(min(threads_by_cores(logical_cores), threads_by_memory(total_memory)), 1)
}

/// The number of mining threads.
pub open spec fn thread_count(
    max_threads: Option<u32>,
    logical_cores: int,
    total_memory: int,
) -> int {
    match max_threads {
        Some(limit) => min(limit as int, threads_by_machine(logical_cores, total_memory)),
        None => threads_by_machine(logical_cores, total_memory),
    }
}

/// The number of mining threads for a machine with this many logical cores and
/// bytes of memory.
pub fn num_threads(max_threads: Option<u32>, logical_cores: usize, total_memory: u64) -> (r: u64)
    ensures
        r == thread_count(max_threads, logical_cores as int, total_memory as int),
{
    let cores: u64 = logical_cores as u64 % 0x1_0000_0000;
    let by_cores: u64 = if cores >= RESERVED_CORES as u64 {
        cores - RESERVED_CORES as u64
    } else {
        0
    };
    let total_ram_gb: u64 = total_memory / BYTES_PER_GB;
    let by_memory: u64 = 10 * total_ram_gb / RAM_PER_THREAD_TENTHS_GB;
    let by_memory: u64 = if by_memory <= u32::MAX as u64 {
        by_memory
    } else {
        u32::MAX as u64
    };
    let by_both: u64 = if by_cores <= by_memory {
        by_cores
    } else {
        by_memory
    };
    let by_machine: u64 = if by_both >= 1 {
        by_both
    } else {
        1
    };
    match max_threads {
        Some(limit) => if limit as u64 <= by_machine {
            limit as u64
        } else {
            by_machine
        },
        None => by_machine,
    }
}

/// There is at least one thread, unless the user's limit is zero.
pub proof fn law_at_least_one_thread(
    max_threads: Option<u32>,
    logical_cores: int,
    total_memory: int,
)
    requires
        max_threads != Some(0u32),
    ensures
        thread_count(max_threads, logical_cores, total_memory) >= 1,
{
}

/// The user's limit holds.
pub proof fn law_limit_holds(limit: u32, logical_cores: int, total_memory: int)
    ensures
        thread_count(Some(limit), logical_cores, total_memory) <= limit,
{
}

/// Beyond the one thread that always runs, two cores stay free and every
/// thread has its 2.1 GB of memory.
pub proof fn law_machine_is_not_overcommitted(
    max_threads: Option<u32>,
    logical_cores: int,
    total_memory: int,
)
    requires
        logical_cores >= 0,
        total_memory >= 0,
        thread_count(max_threads, logical_cores, total_memory) > 1,
    ensures
        thread_count(max_threads, logical_cores, total_memory) + RESERVED_CORES <= logical_cores,
        thread_count(max_threads, logical_cores, total_memory) * RAM_PER_THREAD_TENTHS_GB
            * BYTES_PER_GB <= 10 * total_memory,
{
    let n = thread_count(max_threads, logical_cores, total_memory);
    let gb = total_memory / BYTES_PER_GB as int;
    assert(n <= 10 * gb / 21);
    assert(n * 21 <= 10 * gb);
    assert(gb * 1073741824 <= total_memory);
}

/// The machine is used as far as it goes: with one thread more, two cores would
/// not stay free, or the whole gigabytes of memory would not be 2.1 for each
/// thread.
pub proof fn law_machine_is_used_fully(logical_cores: int, total_memory: int)
    requires
        0 <= logical_cores <= u32::MAX,
        0 <= total_memory,
    ensures
        ({
            let n = thread_count(None, logical_cores, total_memory);
            &&& n >= 1
            &&& n + 1 + 2 > logical_cores || 21 * (n + 1) > 10 * (total_memory / 1073741824)
            &&& n > 1 ==> n + 2 <= logical_cores && 21 * n <= 10 * (total_memory / 1073741824)
        }),
{
}

/// A limit takes away threads beyond it, and no others.
pub proof fn law_limit_takes_away_no_more_than_it_must(
    limit: u32,
    logical_cores: int,
    total_memory: int,
)
    ensures
        ({
            let free = thread_count(None, logical_cores, total_memory);
            let n = thread_count(Some(limit), logical_cores, total_memory);
            &&& free <= limit ==> n == free
            &&& free > limit ==> n == limit
        }),
{
}

/// Cores are counted in 32 bits: only the remainder of their number matters.
pub proof fn law_cores_are_counted_in_32_bits(
    max_threads: Option<u32>,
    logical_cores: int,
    total_memory: int,
)
    requires
        logical_cores >= 0,
    ensures
        thread_count(max_threads, logical_cores, total_memory) == thread_count(
            max_threads,
            logical_cores % 4294967296,
            total_memory,
        ),
{
}

/// More cores and more memory never mean fewer threads.
pub proof fn law_larger_machine_runs_no_fewer_threads(
    max_threads: Option<u32>,
    logical_cores: int,
    total_memory: int,
    more_cores: int,
    more_memory: int,
)
    requires
        0 <= logical_cores <= more_cores <= u32::MAX,
        0 <= total_memory <= more_memory,
    ensures
        thread_count(max_threads, logical_cores, total_memory) <= thread_count(
            max_threads,
            more_cores,
            more_memory,
        ),
{
}

} // verus!
