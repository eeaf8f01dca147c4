//! Sampling a process's CPU consumption.
//!
//! Two snapshots of the cumulative kernel and user time of a process, and the
//! wall time between them, give the number of cores it was actually using.

use std::time::Instant;
use vstd::prelude::*;

verus! {

/// Nanoseconds in a tick of a `FILETIME`.
pub const NANOS_PER_TICK: u64 = 100;

/// A snapshot of one process's cumulative CPU time.
#[derive(Debug, Clone, Copy)]
pub struct CpuSnapshot {
    /// When it was taken.
    pub at: Instant,
    /// CPU time used until then, in nanoseconds.
    pub cpu_ns: u128,
}

/// The span that a `FILETIME` counts, in nanoseconds.
pub open spec fn filetime(low: u32, high: u32) -> int {
    (high * 0x1_0000_0000 + low) * NANOS_PER_TICK
}

/// The span that a `FILETIME` of these two words counts, in nanoseconds: it
/// counts ticks of a hundred.
pub fn filetime_ns(low: u32, high: u32) -> (r: u64)
    requires
        filetime(low, high) <= u64::MAX,
    ensures
        r == filetime(low, high),
{
    let ticks: u64 = high as u64 * 0x1_0000_0000u64 + low as u64;
    ticks * NANOS_PER_TICK
}

impl CpuSnapshot {
    /// A snapshot taken at `at`, from the kernel and user times given as the low
    /// and high words of two `FILETIME`s.
    pub fn taken(at: Instant, kernel: (u32, u32), user: (u32, u32)) -> (r: Self)
        requires
            filetime(kernel.0, kernel.1) <= u64::MAX,
            filetime(user.0, user.1) <= u64::MAX,
        ensures
            r.at == at,
            r.cpu_ns == filetime(kernel.0, kernel.1) + filetime(user.0, user.1),
    {
        CpuSnapshot {
            at,
            cpu_ns: filetime_ns(kernel.0, kernel.1) as u128 + filetime_ns(user.0, user.1) as u128,
        }
    }
}

/// CPU time consumed between two snapshots, in nanoseconds; none if the second
/// shows less than the first.
pub fn cpu_between(start: CpuSnapshot, end: CpuSnapshot) -> (r: u128)
    ensures
        r == if end.cpu_ns >= start.cpu_ns {
            end.cpu_ns - start.cpu_ns
        } else {
            0
        },
{
    if end.cpu_ns >= start.cpu_ns {
        end.cpu_ns - start.cpu_ns
    } else {
        0
    }
}

/// A snapshot adds up kernel and user time, each counted in ticks of a hundred
/// nanoseconds over two words, and keeps when it was taken.
pub proof fn law_a_snapshot_adds_up(
    at: Instant,
    kernel: (u32, u32),
    user: (u32, u32),
    snapshot: CpuSnapshot,
    low: u32,
    high: u32,
    span: u64,
)
    requires
        call_ensures(CpuSnapshot::taken, (at, kernel, user), snapshot),
        call_ensures(filetime_ns, (low, high), span),
    ensures
        snapshot.at == at,
        snapshot.cpu_ns == 100 * (kernel.0 + user.0) + 429_496_729_600 * (kernel.1 + user.1),
        span == 100 * low + 429_496_729_600 * high,
{
}

/// The time between two snapshots is what the second has more than the first, and
/// never less than nothing.
pub proof fn law_time_between_snapshots(a: CpuSnapshot, b: CpuSnapshot, ab: u128, ba: u128)
    requires
        call_ensures(cpu_between, (a, b), ab),
        call_ensures(cpu_between, (b, a), ba),
    ensures
        ab - ba == b.cpu_ns - a.cpu_ns,
        ab == 0 || ba == 0,
{
}

} // verus!
