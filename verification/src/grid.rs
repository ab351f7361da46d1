//! The fixed 20x20 grid of optional tile occupancy, 1-indexed on both axes.

use vstd::prelude::*;
use crate::tile::Tile;

verus! {

/// Grid side length: coordinates run over [1, 20] on both axes.
pub const SIDE: usize = 20;

/// Number of cells of the grid.
pub const CELLS: usize = 400;

/// Whether a 1-indexed coordinate pair lies on the grid.
pub open spec fn in_range(x: int, y: int) -> bool {
    1 <= x <= 20 && 1 <= y <= 20
}

/// The backing index of an in-range 1-indexed coordinate pair: row-major.
pub open spec fn cell_index(x: int, y: int) -> int {
    (y - 1) * 20 + (x - 1)
}

/// Row-major index of a 0-indexed coordinate pair in a row of `xsize` cells.
pub fn linear_index(x: usize, y: usize, xsize: usize) -> (i: usize)
    requires
        y * xsize + x <= usize::MAX,
    ensures
        i == y * xsize + x,
{
    (y * xsize) + x
}

/// A fixed 20x20 surface of optional tiles. A cell, once occupied, is never
/// overwritten or cleared.
pub struct Grid {
    cells: Vec<Option<Tile>>,
}

/// Every cell of the grid holds a tile.
pub open spec fn spec_full(cells: Seq<Option<Tile>>) -> bool {
    forall|i: int| 0 <= i < cells.len() ==> cells[i] is Some
}

/// What one placement attempt leaves behind: the cell is filled when the
/// coordinate is on the grid and the cell is empty, and nothing changes
/// otherwise.
pub open spec fn spec_place(cells: Seq<Option<Tile>>, x: int, y: int, t: Tile) -> Seq<Option<Tile>> {
    if in_range(x, y) && cells.len() == 400 && cells[cell_index(x, y)] is None {
        cells.update(cell_index(x, y), Some(t))
    } else {
        cells
    }
}

impl View for Grid {
    type V = Seq<Option<Tile>>;

    closed spec fn view(&self) -> Seq<Option<Tile>> {
        self.cells@
    }
}

impl Grid {
    /// A grid is well formed when it has exactly the 400 cells.
    pub open spec fn wf(&self) -> bool {
        self@.len() == 400
    }

    /// A fresh, fully empty grid; it is not full.
    pub fn new() -> (g: Grid)
        ensures
            g.wf(),
            forall|i: int| 0 <= i < 400 ==> g@[i] is None,
            !spec_full(g@),
    {
        let mut cells: Vec<Option<Tile>> = Vec::new();
        let mut i: usize = 0;
        while i < 400
            invariant
                i <= 400,
                cells@.len() == i,
                forall|j: int| 0 <= j < i ==> cells@[j] is None,
            decreases 400 - i,
        {
            cells.push(None);
            i = i + 1;
        }
        proof {
            assert(cells@[0] is None);
        }
        Grid { cells }
    }

    /// The cell under a coordinate pair: `None` exactly when the pair is off
    /// the grid, otherwise the occupant slot.
    pub fn get(&self, x: usize, y: usize) -> (r: Option<&Option<Tile>>)
        requires
            self.wf(),
        ensures
            r is Some <==> in_range(x as int, y as int),
            r is Some ==> *r->Some_0 == self@[cell_index(x as int, y as int)],
    {
        if x < 1 || x > 20 || y < 1 || y > 20 {
            return None;
        }
        let i = linear_index(x - 1, y - 1, 20);
        Some(&self.cells[i])
    }

    /// Attempt to place a tile: succeeds exactly when the coordinate is on
    /// the grid and the cell is empty; on failure nothing changes.
    pub fn try_place(&mut self, x: usize, y: usize, tile: Tile) -> (ok: bool)
        requires
            old(self).wf(),
        ensures
            final(self).wf(),
            ok == (in_range(x as int, y as int)
                && old(self)@[cell_index(x as int, y as int)] is None),
            final(self)@ == spec_place(old(self)@, x as int, y as int, tile),
    {
        if x < 1 || x > 20 || y < 1 || y > 20 {
            return false;
        }
        let i = linear_index(x - 1, y - 1, 20);
        if self.cells[i].is_some() {
            return false;
        }
        self.cells[i] = Some(tile);
        true
    }

    /// Whether every one of the 400 cells is occupied.
    pub fn is_full(&self) -> (r: bool)
        requires
            self.wf(),
        ensures
            r == spec_full(self@),
    {
        let mut i: usize = 0;
        while i < 400
            invariant
                self.wf(),
                i <= 400,
                forall|j: int| 0 <= j < i ==> self@[j] is Some,
            decreases 400 - i,
        {
            if self.cells[i].is_none() {
                return false;
            }
            i = i + 1;
        }
        true
    }
}

/// Placing into an already-resolved cell is inert: after one placement at a
/// coordinate, a second placement there (of any tile) changes nothing, so an
/// occupant is never replaced.
pub proof fn lemma_place_idempotent_safe(
    cells: Seq<Option<Tile>>,
    x: int,
    y: int,
    t1: Tile,
    t2: Tile,
)
    ensures
        spec_place(spec_place(cells, x, y, t1), x, y, t2) == spec_place(cells, x, y, t1),
{
}

} // verus!
