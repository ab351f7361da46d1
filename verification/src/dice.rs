//! Bounded random draws and the d4-to-direction mapping.

use vstd::prelude::*;

verus! {

/// Relies on rand's `ThreadRng`: the thread-local generator, carried through
/// the library as an opaque value.
#[verifier::external_type_specification]
#[verifier::external_body]
pub struct ExThreadRng(rand::rngs::ThreadRng);

/// Relies on rand's `RngExt::random_range` over the inclusive range
/// `lo..=hi`: the draw is uniform over that range, so the result lies within
/// it. The range is nonempty by the precondition, so the call does not panic
/// on an empty range.
#[verifier::external_body]
pub(crate) fn rand_range(rng: &mut rand::rngs::ThreadRng, lo: usize, hi: usize) -> (r: usize)
    requires
        lo <= hi,
    ensures
        lo <= r <= hi,
{
    rand::RngExt::random_range(rng, lo..=hi)
}

/// A uniform d20 roll: an integer in [1, 20].
pub fn roll_d20(rng: &mut rand::rngs::ThreadRng) -> (r: usize)
    ensures
        1 <= r <= 20,
{
    rand_range(rng, 1, 20)
}

/// A uniform d4 roll: an integer in [1, 4].
pub fn roll_d4(rng: &mut rand::rngs::ThreadRng) -> (r: usize)
    ensures
        1 <= r <= 4,
{
    rand_range(rng, 1, 4)
}

/// A uniform index below `n`, for drawing one element among `n`.
pub fn pick_index(rng: &mut rand::rngs::ThreadRng, n: usize) -> (r: usize)
    requires
        n >= 1,
    ensures
        r < n,
{
    rand_range(rng, 0, n - 1)
}

/// The x component of the unit vector a d4 outcome maps to.
pub open spec fn spec_dx(n: int) -> int {
    if n == 2 { 1 } else if n == 4 { -1 } else { 0 }
}

/// The y component of the unit vector a d4 outcome maps to.
pub open spec fn spec_dy(n: int) -> int {
    if n == 1 { 1 } else if n == 3 { -1 } else { 0 }
}

/// The x offset of a d4 outcome, in the fixed cyclic order
/// 1:(0,+1), 2:(+1,0), 3:(0,-1), 4:(-1,0).
pub fn d4_to_dx(n: usize) -> (d: isize)
    requires
        1 <= n <= 4,
    ensures
        d == spec_dx(n as int),
{
    match n {
        1 => 0,
        2 => 1,
        3 => 0,
        4 => -1,
        _ => 0,
    }
}

/// The y offset of a d4 outcome, in the same cyclic order as `d4_to_dx`.
pub fn d4_to_dy(n: usize) -> (d: isize)
    requires
        1 <= n <= 4,
    ensures
        d == spec_dy(n as int),
{
    match n {
        1 => 1,
        2 => 0,
        3 => -1,
        4 => 0,
        _ => 0,
    }
}

} // verus!
