//! Randomly walking agents ("ants") whose positions drive tile placement.

use vstd::prelude::*;
use crate::dice::{roll_d4, d4_to_dx, d4_to_dy, spec_dx, spec_dy};
use crate::grid::in_range;

verus! {

/// A grid-position walker; its coordinates always lie in [1, 20] x [1, 20].
#[derive(Clone, Copy, PartialEq, Eq, Structural, Debug)]
pub struct Ant {
    pub x: usize,
    pub y: usize,
}

/// Pick a d4 direction whose offset keeps the position on the grid. Offsets
/// that would leave the grid are rejected and redrawn; after a generous
/// number of draws the first in-bounds axis move is taken, so the search
/// always ends with a valid direction.
fn pick_direction(x: usize, y: usize, rng: &mut rand::rngs::ThreadRng) -> (n: usize)
    requires
        in_range(x as int, y as int),
    ensures
        1 <= n <= 4,
        in_range(x as int + spec_dx(n as int), y as int + spec_dy(n as int)),
{
    let mut tries: usize = 0;
    while tries < 64
        invariant
            in_range(x as int, y as int),
        decreases 64 - tries,
    {
        let n = roll_d4(rng);
        let nx = x as isize + d4_to_dx(n);
        let ny = y as isize + d4_to_dy(n);
        if 1 <= nx && nx <= 20 && 1 <= ny && ny <= 20 {
            return n;
        }
        tries = tries + 1;
    }
    if x < 20 { 2 } else { 4 }
}

/// The second position is one axis-aligned unit step away from the first.
pub open spec fn moved_one_step(a: Ant, b: Ant) -> bool {
    exists|n: int| 1 <= n <= 4 && b.x == a.x + spec_dx(n) && b.y == a.y + spec_dy(n)
}

impl Ant {
    /// The position lies on the grid.
    pub open spec fn wf(&self) -> bool {
        in_range(self.x as int, self.y as int)
    }

    /// An agent at a given cell.
    pub fn new(x: usize, y: usize) -> (a: Ant)
        requires
            in_range(x as int, y as int),
        ensures
            a.x == x,
            a.y == y,
            a.wf(),
    {
        Ant { x, y }
    }

    /// One movement tick: move one cell along an axis, never off the grid.
    pub fn update(&mut self, rng: &mut rand::rngs::ThreadRng)
        requires
            old(self).wf(),
        ensures
            final(self).wf(),
            moved_one_step(*old(self), *final(self)),
    {
        let n = pick_direction(self.x, self.y, rng);
        self.x = (self.x as isize + d4_to_dx(n)) as usize;
        self.y = (self.y as isize + d4_to_dy(n)) as usize;
        proof {
            assert(1 <= n as int <= 4 && self.x == old(self).x + spec_dx(n as int)
                && self.y == old(self).y + spec_dy(n as int));
        }
    }
}

} // verus!
