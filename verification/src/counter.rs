//! Statistics counters, which wrap around at the end of their range.

use vstd::prelude::*;

verus! {

/// The count after one more event.
pub open spec fn next_usize(c: usize) -> usize {
    if c == usize::MAX {
        0
    } else {
        (c + 1) as usize
    }
}

/// The count after one more event.
pub open spec fn next_u64(c: u64) -> u64 {
    if c == u64::MAX {
        0
    } else {
        (c + 1) as u64
    }
}

/// The sum of a running total and `n`, modulo the range of the counter.
pub open spec fn plus_u64(total: u64, n: u64) -> u64 {
    if total + n > u64::MAX {
        (total + n - u64::MAX - 1) as u64
    } else {
        (total + n) as u64
    }
}

pub(crate) fn count_usize(c: usize) -> (r: usize)
    ensures
        r == next_usize(c),
{
    if c == usize::MAX {
        0
    } else {
        c + 1
    }
}

pub(crate) fn count_u64(c: u64) -> (r: u64)
    ensures
        r == next_u64(c),
{
    if c == u64::MAX {
        0
    } else {
        c + 1
    }
}

pub(crate) fn accumulate_u64(total: u64, n: u64) -> (r: u64)
    ensures
        r == plus_u64(total, n),
{
    if total > u64::MAX - n {
        n - (u64::MAX - total) - 1
    } else {
        total + n
    }
}

/// A counter that has not reached the end of its range counts on by one; a total that stays
/// within it grows by what is added. At the end they start again at zero.
pub proof fn law_counters_count(a: usize, b: u64, total: u64, n: u64)
    ensures
        a < usize::MAX ==> next_usize(a) == a + 1,
        a == usize::MAX ==> next_usize(a) == 0,
        b < u64::MAX ==> next_u64(b) == b + 1,
        b == u64::MAX ==> next_u64(b) == 0,
        total + n <= u64::MAX ==> plus_u64(total, n) == total + n,
        total + n > u64::MAX ==> plus_u64(total, n) == total + n - 0x1_0000_0000_0000_0000,
{
}

} // verus!
