//! Counters that start again behind their last number.
use vstd::prelude::*;

verus! {

/// The number after `n`.
pub open spec fn next32(n: u32) -> u32 {
    if n == u32::MAX {
        0
    } else {
        (n + 1) as u32
    }
}

/// The number after `n`.
pub open spec fn next64(n: u64) -> u64 {
    if n == u64::MAX {
        0
    } else {
        (n + 1) as u64
    }
}

/// `n` and `m` more.
pub open spec fn advanced64(n: u64, m: u64) -> u64 {
    if n + m > u64::MAX {
        (n + m - u64::MAX - 1) as u64
    } else {
        (n + m) as u64
    }
}

/// Counters count modulo the numbers that they can hold.
pub proof fn law_counters_wrap(n: u32, m: u64, k: u64)
    ensures
        next32(n) as int == (n + 1) % 0x1_0000_0000,
        next64(m) as int == (m + 1) % 0x1_0000_0000_0000_0000,
        advanced64(m, k) as int == (m + k) % 0x1_0000_0000_0000_0000,
        advanced64(m, 0) == m,
        advanced64(m, 1) == next64(m),
{
}

} // verus!
