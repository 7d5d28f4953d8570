use vstd::prelude::*;

verus! {

// TCP sequence numbers live in a space that wraps modulo 2^32.  All ordering
// in this crate is expressed through `dist`, the number of steps forward from
// one sequence number to another; a value `b` is "at or ahead of" `a` when
// that forward distance is less than half the space.

/// Forward distance from `a` to `b` in the sequence space, in `[0, 2^32)`.
pub open spec fn dist(a: u32, b: u32) -> int {
    if b >= a {
        b - a
    } else {
        b - a + 0x1_0000_0000
    }
}

/// `b` is at or ahead of `a`: reaching `b` from `a` takes less than half the
/// sequence space.  This is the wraparound-aware `a <= b`.
pub open spec fn seq_le(a: u32, b: u32) -> bool {
    dist(a, b) < 0x8000_0000
}

/// Strict wraparound-aware ordering: `a != b` and `b` is ahead of `a`.
pub open spec fn seq_lt(a: u32, b: u32) -> bool {
    a != b && seq_le(a, b)
}

/// Computes the forward distance from `a` to `b`.
pub fn wrapping_distance(a: u32, b: u32) -> (r: u32)
    ensures
        r == dist(a, b),
{
    if b >= a {
        b - a
    } else {
        (u32::MAX - a) + b + 1
    }
}

/// Wraparound-aware `a <= b`.
pub fn wrapping_le(a: u32, b: u32) -> (r: bool)
    ensures
        r == seq_le(a, b),
{
    wrapping_distance(a, b) < 0x8000_0000
}

/// Wraparound-aware `a < b`.
pub fn wrapping_lt(a: u32, b: u32) -> (r: bool)
    ensures
        r == seq_lt(a, b),
{
    a != b && wrapping_le(a, b)
}

/// The sequence number `n` steps forward of `a`, for `0 <= n < 2^32`.
pub open spec fn spec_step(a: u32, n: int) -> u32 {
    if a + n < 0x1_0000_0000 {
        (a + n) as u32
    } else {
        (a + n - 0x1_0000_0000) as u32
    }
}

/// Steps `a` forward by `n` in the sequence space.
pub fn wrapping_step(a: u32, n: u32) -> (r: u32)
    ensures
        dist(a, r) == n,
        r == spec_step(a, n as int),
{
    if n <= u32::MAX - a {
        a + n
    } else {
        n - (u32::MAX - a) - 1
    }
}

/// Distances compose: going from `a` to `b` and then from `b` to `c` covers
/// the distance from `a` to `c`, as long as the two legs together do not wrap
/// all the way around the space.
pub proof fn lemma_dist_add(a: u32, b: u32, c: u32)
    requires
        dist(a, b) + dist(b, c) < 0x1_0000_0000,
    ensures
        dist(a, c) == dist(a, b) + dist(b, c),
{
}

/// Re-basing a position: when `m` lies between `base` and `x` (measured
/// forward from `base`), the distance from `m` to `x` is the difference of
/// the two distances from `base`.
pub proof fn lemma_dist_rebase(base: u32, m: u32, x: u32)
    requires
        dist(base, m) <= dist(base, x),
    ensures
        dist(m, x) == dist(base, x) - dist(base, m),
{
}

} // verus!
