//! The generation driver: seed a city block, seed villages with one agent
//! each, then tick agents and grow terrain until the grid is full.

use vstd::prelude::*;
use crate::ant::{Ant, moved_one_step};
use crate::dice::{rand_range, roll_d20};
use crate::grid::{Grid, in_range, cell_index, spec_place, spec_full};
use crate::registry::{Registry, def_named, same_def_but_limit};
use crate::resolver::roll_next;
use crate::tile::{Tile, spec_snapshot};

verus! {

/// The tick cap that turns the theoretical chance of a never-filling grid
/// into an explicit stalled outcome instead of an endless loop.
pub const MAX_TICKS: usize = 1000000;

/// Every occupied cell holds a tile whose name some definition carries.
pub open spec fn cells_known(cells: Seq<Option<Tile>>, tiles: Seq<crate::tile::TileDef>) -> bool {
    forall|i: int| 0 <= i < cells.len() && (#[trigger] cells[i]) is Some
        ==> def_named(tiles, cells[i]->Some_0.name@)
}

/// Every agent stands on the grid, on an occupied cell.
pub open spec fn ants_ok(ants: Seq<Ant>, cells: Seq<Option<Tile>>) -> bool {
    forall|k: int| 0 <= k < ants.len() ==> (#[trigger] ants[k]).wf()
        && cells[cell_index(ants[k].x as int, ants[k].y as int)] is Some
}

/// Occupancy only grows: an occupied cell keeps its occupant.
pub open spec fn cells_monotone(a: Seq<Option<Tile>>, b: Seq<Option<Tile>>) -> bool {
    a.len() == b.len() && forall|i: int| 0 <= i < a.len() && (#[trigger] a[i]) is Some
        ==> b[i] == a[i]
}

/// No tile's remaining quota grew: generation only ever spends quota.
pub open spec fn quotas_monotone(a: Registry, b: Registry) -> bool {
    forall|i: int| 0 <= i < a.tiles@.len()
        ==> (#[trigger] b.tiles@[i]).limit <= a.tiles@[i].limit
}

/// The registries agree on everything but remaining quotas: generation only
/// ever decrements quotas, never reshapes the registry.
pub open spec fn same_shape(a: Registry, b: Registry) -> bool {
    &&& b.tiles@.len() == a.tiles@.len()
    &&& b.village == a.village
    &&& b.tower == a.tower
    &&& b.corruption == a.corruption
    &&& forall|i: int| #![trigger b.tiles@[i]] 0 <= i < a.tiles@.len()
        ==> same_def_but_limit(a.tiles@[i], b.tiles@[i])
}

/// What the city step leaves behind: the village tile attempted on all nine
/// cells of the 3x3 block centered on the anchor, in a fixed order.
pub open spec fn spec_city(cells: Seq<Option<Tile>>, cx: int, cy: int, t: Tile) -> Seq<
    Option<Tile>,
> {
    let c1 = spec_place(cells, cx + 1, cy + 1, t);
    let c2 = spec_place(c1, cx + 1, cy, t);
    let c3 = spec_place(c2, cx + 1, cy - 1, t);
    let c4 = spec_place(c3, cx, cy + 1, t);
    let c5 = spec_place(c4, cx, cy, t);
    let c6 = spec_place(c5, cx, cy - 1, t);
    let c7 = spec_place(c6, cx - 1, cy + 1, t);
    let c8 = spec_place(c7, cx - 1, cy, t);
    spec_place(c8, cx - 1, cy - 1, t)
}

/// One placement keeps occupancy monotone.
pub proof fn lemma_place_is_monotone(cells: Seq<Option<Tile>>, x: int, y: int, t: Tile)
    requires
        cells.len() == 400,
    ensures
        cells_monotone(cells, spec_place(cells, x, y, t)),
{
}

/// Monotonicity composes.
pub proof fn lemma_monotone_trans(
    a: Seq<Option<Tile>>,
    b: Seq<Option<Tile>>,
    c: Seq<Option<Tile>>,
)
    requires
        cells_monotone(a, b),
        cells_monotone(b, c),
    ensures
        cells_monotone(a, c),
{
    assert forall|i: int| 0 <= i < a.len() && (#[trigger] a[i]) is Some implies c[i] == a[i] by {
        assert(b[i] == a[i]);
        assert(b[i] is Some);
    }
}

/// Placing a tile whose name the registry carries keeps all cells known.
pub proof fn lemma_place_keeps_known(
    cells: Seq<Option<Tile>>,
    x: int,
    y: int,
    t: Tile,
    tiles: Seq<crate::tile::TileDef>,
)
    requires
        cells_known(cells, tiles),
        def_named(tiles, t.name@),
    ensures
        cells_known(spec_place(cells, x, y, t), tiles),
{
}

/// A registry of the same shape knows the same names, so known cells stay
/// known across quota changes.
pub proof fn lemma_same_shape_keeps_known(a: Registry, b: Registry, cells: Seq<Option<Tile>>)
    requires
        same_shape(a, b),
        cells_known(cells, a.tiles@),
    ensures
        cells_known(cells, b.tiles@),
{
    assert forall|i: int| 0 <= i < cells.len() && (#[trigger] cells[i]) is Some implies def_named(
        b.tiles@,
        cells[i]->Some_0.name@,
    ) by {
        let name = cells[i]->Some_0.name@;
        let j = choose|j: int| 0 <= j < a.tiles@.len() && a.tiles@[j].name@ == name;
        assert(same_def_but_limit(a.tiles@[j], b.tiles@[j]));
        assert(b.tiles@[j].name@ == name);
    }
}

/// Quota monotonicity composes.
pub proof fn lemma_quotas_trans(a: Registry, b: Registry, c: Registry)
    requires
        quotas_monotone(a, b),
        quotas_monotone(b, c),
        b.tiles@.len() == a.tiles@.len(),
    ensures
        quotas_monotone(a, c),
{
    assert forall|i: int| 0 <= i < a.tiles@.len() implies (#[trigger] c.tiles@[i]).limit
        <= a.tiles@[i].limit by {
        assert(b.tiles@[i].limit <= a.tiles@[i].limit);
    }
}

/// Same shape composes.
pub proof fn lemma_same_shape_trans(a: Registry, b: Registry, c: Registry)
    requires
        same_shape(a, b),
        same_shape(b, c),
    ensures
        same_shape(a, c),
{
    assert forall|i: int| #![trigger c.tiles@[i]] 0 <= i < a.tiles@.len() implies
        same_def_but_limit(a.tiles@[i], c.tiles@[i]) by {
        assert(same_def_but_limit(a.tiles@[i], b.tiles@[i]));
        assert(same_def_but_limit(b.tiles@[i], c.tiles@[i]));
    }
}

/// A random interior anchor: both coordinates in [2, 19], so the whole 3x3
/// block around it stays on the grid. Out-of-range d20 draws are rejected;
/// after a generous number of draws the anchor is drawn from [2, 19]
/// directly, which ends the search with the same distribution.
fn draw_anchor(rng: &mut rand::rngs::ThreadRng) -> (a: (usize, usize))
    ensures
        2 <= a.0 <= 19,
        2 <= a.1 <= 19,
{
    let mut tries: usize = 0;
    while tries < 64
        decreases 64 - tries,
    {
        let x = roll_d20(rng);
        let y = roll_d20(rng);
        if 2 <= x && x <= 19 && 2 <= y && y <= 19 {
            return (x, y);
        }
        tries = tries + 1;
    }
    (rand_range(rng, 2, 19), rand_range(rng, 2, 19))
}

/// Place the village tile on the nine cells of a 3x3 block around a random
/// interior anchor. Placements into occupied cells are inert.
pub fn place_city(grid: &mut Grid, reg: &Registry, rng: &mut rand::rngs::ThreadRng)
    requires
        old(grid).wf(),
        reg.wf(),
        cells_known(old(grid)@, reg.tiles@),
    ensures
        final(grid).wf(),
        cells_known(final(grid)@, reg.tiles@),
        cells_monotone(old(grid)@, final(grid)@),
        exists|cx: int, cy: int|
            2 <= cx <= 19 && 2 <= cy <= 19 && final(grid)@ == spec_city(
                old(grid)@,
                cx,
                cy,
                spec_snapshot(reg.tiles@[reg.village as int]),
            ) && final(grid)@[cell_index(cx, cy)] is Some,
{
    let (cx, cy) = draw_anchor(rng);
    let ghost t = spec_snapshot(reg.tiles@[reg.village as int]);
    let ghost c0 = grid@;
    let v = reg.village;
    grid.try_place(cx + 1, cy + 1, reg.tiles[v].snapshot());
    let ghost c1 = grid@;
    grid.try_place(cx + 1, cy, reg.tiles[v].snapshot());
    let ghost c2 = grid@;
    grid.try_place(cx + 1, cy - 1, reg.tiles[v].snapshot());
    let ghost c3 = grid@;
    grid.try_place(cx, cy + 1, reg.tiles[v].snapshot());
    let ghost c4 = grid@;
    grid.try_place(cx, cy, reg.tiles[v].snapshot());
    let ghost c5 = grid@;
    grid.try_place(cx, cy - 1, reg.tiles[v].snapshot());
    let ghost c6 = grid@;
    grid.try_place(cx - 1, cy + 1, reg.tiles[v].snapshot());
    let ghost c7 = grid@;
    grid.try_place(cx - 1, cy, reg.tiles[v].snapshot());
    let ghost c8 = grid@;
    grid.try_place(cx - 1, cy - 1, reg.tiles[v].snapshot());
    proof {
        assert(grid@ == spec_city(c0, cx as int, cy as int, t));
        assert(def_named(reg.tiles@, t.name@)) by {
            assert(reg.tiles@[reg.village as int].name@ == t.name@);
        }
        lemma_place_keeps_known(c0, cx + 1, cy + 1, t, reg.tiles@);
        lemma_place_keeps_known(c1, cx + 1, cy as int, t, reg.tiles@);
        lemma_place_keeps_known(c2, cx + 1, cy - 1, t, reg.tiles@);
        lemma_place_keeps_known(c3, cx as int, cy + 1, t, reg.tiles@);
        lemma_place_keeps_known(c4, cx as int, cy as int, t, reg.tiles@);
        lemma_place_keeps_known(c5, cx as int, cy - 1, t, reg.tiles@);
        lemma_place_keeps_known(c6, cx - 1, cy + 1, t, reg.tiles@);
        lemma_place_keeps_known(c7, cx - 1, cy as int, t, reg.tiles@);
        lemma_place_keeps_known(c8, cx - 1, cy - 1, t, reg.tiles@);
        lemma_place_is_monotone(c0, cx + 1, cy + 1, t);
        lemma_place_is_monotone(c1, cx + 1, cy as int, t);
        lemma_place_is_monotone(c2, cx + 1, cy - 1, t);
        lemma_place_is_monotone(c3, cx as int, cy + 1, t);
        lemma_place_is_monotone(c4, cx as int, cy as int, t);
        lemma_place_is_monotone(c5, cx as int, cy - 1, t);
        lemma_place_is_monotone(c6, cx - 1, cy + 1, t);
        lemma_place_is_monotone(c7, cx - 1, cy as int, t);
        lemma_place_is_monotone(c8, cx - 1, cy - 1, t);
        lemma_monotone_trans(c0, c1, c2);
        lemma_monotone_trans(c0, c2, c3);
        lemma_monotone_trans(c0, c3, c4);
        lemma_monotone_trans(c0, c4, c5);
        lemma_monotone_trans(c0, c5, c6);
        lemma_monotone_trans(c0, c6, c7);
        lemma_monotone_trans(c0, c7, c8);
        lemma_monotone_trans(c0, c8, grid@);
        // the anchor cell itself is occupied from the fifth placement on
        lemma_monotone_trans(c5, c6, c7);
        lemma_monotone_trans(c5, c7, c8);
        lemma_monotone_trans(c5, c8, grid@);
        assert(c5[cell_index(cx as int, cy as int)] is Some);
        assert(grid@[cell_index(cx as int, cy as int)] is Some);
    }
}

/// Find an empty cell: random draws first, then a deterministic row scan, so
/// the search ends. `None` exactly when the grid is full.
pub fn find_empty_cell(grid: &Grid, rng: &mut rand::rngs::ThreadRng) -> (r: Option<(usize, usize)>)
    requires
        grid.wf(),
    ensures
        match r {
            Some(p) => in_range(p.0 as int, p.1 as int) && grid@[cell_index(
                p.0 as int,
                p.1 as int,
            )] is None,
            None => spec_full(grid@),
        },
{
    let mut tries: usize = 0;
    while tries < 64
        invariant
            grid.wf(),
        decreases 64 - tries,
    {
        let x = roll_d20(rng);
        let y = roll_d20(rng);
        match grid.get(x, y) {
            Some(slot) => {
                if slot.is_none() {
                    return Some((x, y));
                }
            }
            None => {}
        }
        tries = tries + 1;
    }
    let mut y: usize = 1;
    while y <= 20
        invariant
            grid.wf(),
            1 <= y <= 21,
            forall|j: int| 0 <= j < (y - 1) * 20 ==> grid@[j] is Some,
        decreases 21 - y,
    {
        let mut x: usize = 1;
        while x <= 20
            invariant
                grid.wf(),
                1 <= y <= 20,
                1 <= x <= 21,
                forall|j: int| 0 <= j < (y - 1) * 20 + (x - 1) ==> grid@[j] is Some,
            decreases 21 - x,
        {
            match grid.get(x, y) {
                Some(slot) => {
                    if slot.is_none() {
                        return Some((x, y));
                    }
                }
                None => {}
            }
            x = x + 1;
        }
        y = y + 1;
    }
    None
}

/// Seed the starting villages: place the village tile on a random empty cell,
/// decrement its quota, and spawn one agent there, `count` times over. Stops
/// early only when the grid has no empty cell left.
pub fn seed_villages(
    grid: &mut Grid,
    reg: &mut Registry,
    rng: &mut rand::rngs::ThreadRng,
    count: usize,
) -> (ants: Vec<Ant>)
    requires
        old(grid).wf(),
        old(reg).wf(),
        cells_known(old(grid)@, old(reg).tiles@),
    ensures
        final(grid).wf(),
        final(reg).wf(),
        same_shape(*old(reg), *final(reg)),
        quotas_monotone(*old(reg), *final(reg)),
        cells_known(final(grid)@, final(reg).tiles@),
        cells_monotone(old(grid)@, final(grid)@),
        ants_ok(ants@, final(grid)@),
        ants@.len() <= count,
        ants@.len() < count ==> spec_full(final(grid)@),
        // exactly one quota point is spent per seeded village, never below zero
        final(reg).tiles@[old(reg).village as int].limit == (
            if old(reg).tiles@[old(reg).village as int].limit >= ants@.len() {
                old(reg).tiles@[old(reg).village as int].limit - ants@.len()
            } else {
                0
            }
        ),
        // every agent was spawned on a cell that now holds the village tile
        forall|k: int| 0 <= k < ants@.len()
            ==> final(grid)@[cell_index((#[trigger] ants@[k]).x as int, ants@[k].y as int)]
                == Some(spec_snapshot(old(reg).tiles@[old(reg).village as int])),
{
    let ghost vdef = old(reg).tiles@[old(reg).village as int];
    let mut ants: Vec<Ant> = Vec::new();
    let mut placed: usize = 0;
    while placed < count
        invariant
            grid.wf(),
            reg.wf(),
            placed <= count,
            ants@.len() == placed,
            same_shape(*old(reg), *reg),
            quotas_monotone(*old(reg), *reg),
            cells_known(grid@, reg.tiles@),
            cells_monotone(old(grid)@, grid@),
            ants_ok(ants@, grid@),
            vdef == old(reg).tiles@[old(reg).village as int],
            reg.tiles@[old(reg).village as int].limit == (
                if vdef.limit >= placed {
                    vdef.limit - placed
                } else {
                    0
                }
            ),
            forall|k: int| 0 <= k < ants@.len()
                ==> grid@[cell_index((#[trigger] ants@[k]).x as int, ants@[k].y as int)]
                    == Some(spec_snapshot(vdef)),
        decreases count - placed,
    {
        let (x, y) = match find_empty_cell(grid, rng) {
            Some(p) => p,
            None => {
                return ants;
            }
        };
        let ghost c0 = grid@;
        let ghost reg0 = *reg;
        let v = reg.village;
        let snap = reg.tiles[v].snapshot();
        let ok = grid.try_place(x, y, snap);
        reg.decrement_quota(v);
        ants.push(Ant::new(x, y));
        proof {
            assert(ok);
            assert(def_named(reg0.tiles@, snap.name@)) by {
                assert(reg0.tiles@[v as int].name@ == snap.name@);
            }
            lemma_place_keeps_known(c0, x as int, y as int, snap, reg0.tiles@);
            lemma_same_shape_keeps_known(reg0, *reg, grid@);
            lemma_same_shape_trans(*old(reg), reg0, *reg);
            assert(quotas_monotone(reg0, *reg));
            lemma_quotas_trans(*old(reg), reg0, *reg);
            lemma_place_is_monotone(c0, x as int, y as int, snap);
            lemma_monotone_trans(old(grid)@, c0, grid@);
            assert(same_def_but_limit(vdef, reg0.tiles@[v as int]));
            assert(snap == spec_snapshot(vdef));
            assert(grid@[cell_index(x as int, y as int)] == Some(snap));
            assert forall|k: int| 0 <= k < ants@.len() implies (#[trigger] ants@[k]).wf()
                && grid@[cell_index(ants@[k].x as int, ants@[k].y as int)]
                == Some(spec_snapshot(vdef)) by {
                if k < ants@.len() - 1 {
                    assert(c0[cell_index(ants@[k].x as int, ants@[k].y as int)] is Some);
                }
            }
        }
        placed = placed + 1;
    }
    ants
}

/// One generation tick: every agent moves one step, the tile under its prior
/// cell is resolved through the transition table, and the outcome is
/// attempted at its new cell; a successful placement costs one quota.
pub fn tick(
    grid: &mut Grid,
    reg: &mut Registry,
    ants: &mut Vec<Ant>,
    rng: &mut rand::rngs::ThreadRng,
)
    requires
        old(grid).wf(),
        old(reg).wf(),
        cells_known(old(grid)@, old(reg).tiles@),
        ants_ok(old(ants)@, old(grid)@),
    ensures
        final(grid).wf(),
        final(reg).wf(),
        same_shape(*old(reg), *final(reg)),
        quotas_monotone(*old(reg), *final(reg)),
        cells_known(final(grid)@, final(reg).tiles@),
        final(ants)@.len() == old(ants)@.len(),
        ants_ok(final(ants)@, final(grid)@),
        cells_monotone(old(grid)@, final(grid)@),
        forall|j: int| 0 <= j < old(ants)@.len()
            ==> moved_one_step(old(ants)@[j], #[trigger] final(ants)@[j]),
{
    let len = ants.len();
    let mut k: usize = 0;
    while k < len
        invariant
            grid.wf(),
            reg.wf(),
            len == ants@.len(),
            ants@.len() == old(ants)@.len(),
            k <= len,
            same_shape(*old(reg), *reg),
            quotas_monotone(*old(reg), *reg),
            cells_known(grid@, reg.tiles@),
            ants_ok(ants@, grid@),
            cells_monotone(old(grid)@, grid@),
            forall|j: int| k <= j < len ==> ants@[j] == old(ants)@[j],
            forall|j: int| 0 <= j < k
                ==> moved_one_step(old(ants)@[j], #[trigger] ants@[j]),
        decreases len - k,
    {
        proof {
            assert(ants@[k as int].wf());
            assert(grid@[cell_index(ants@[k as int].x as int, ants@[k as int].y as int)] is Some);
        }
        let a = ants[k];
        // the definition of the tile under the agent's prior cell
        let source: usize = match grid.get(a.x, a.y) {
            Some(slot) => match slot {
                Some(tile) => match reg.lookup(&tile.name) {
                    Ok(s) => s,
                    Err(_) => {
                        proof {
                            assert(false);
                        }
                        0
                    }
                },
                None => {
                    proof {
                        assert(false);
                    }
                    0
                }
            },
            None => {
                proof {
                    assert(false);
                }
                0
            }
        };
        let mut a2 = a;
        a2.update(rng);
        ants[k] = a2;
        let t_idx = roll_next(reg, source, rng);
        let snap = reg.tiles[t_idx].snapshot();
        let ghost c0 = grid@;
        let ghost reg0 = *reg;
        let ghost ants0 = ants@;
        let placed = grid.try_place(a2.x, a2.y, snap);
        if placed {
            reg.decrement_quota(t_idx);
        }
        proof {
            assert(def_named(reg0.tiles@, snap.name@)) by {
                assert(reg0.tiles@[t_idx as int].name@ == snap.name@);
            }
            lemma_place_keeps_known(c0, a2.x as int, a2.y as int, snap, reg0.tiles@);
            lemma_same_shape_keeps_known(reg0, *reg, grid@);
            lemma_same_shape_trans(*old(reg), reg0, *reg);
            assert(quotas_monotone(reg0, *reg));
            lemma_quotas_trans(*old(reg), reg0, *reg);
            lemma_place_is_monotone(c0, a2.x as int, a2.y as int, snap);
            lemma_monotone_trans(old(grid)@, c0, grid@);
            // the agent's new cell is occupied either way: a successful
            // placement fills it, a failed one means it was occupied already
            assert(grid@[cell_index(a2.x as int, a2.y as int)] is Some);
            assert forall|j: int| 0 <= j < ants@.len() implies (#[trigger] ants@[j]).wf()
                && grid@[cell_index(ants@[j].x as int, ants@[j].y as int)] is Some by {
                if j != k {
                    assert(ants@[j] == ants0[j]);
                    assert(c0[cell_index(ants@[j].x as int, ants@[j].y as int)] is Some);
                }
            }
        }
        k = k + 1;
    }
}

/// Run the whole generation: place the city, seed `num_villages` villages and
/// agents, then tick until the grid is full or the tick cap is reached. The
/// flag says whether the returned grid is fully populated.
pub fn generate(
    reg: &mut Registry,
    rng: &mut rand::rngs::ThreadRng,
    num_villages: usize,
) -> (r: (Grid, bool))
    requires
        old(reg).wf(),
    ensures
        r.0.wf(),
        final(reg).wf(),
        same_shape(*old(reg), *final(reg)),
        quotas_monotone(*old(reg), *final(reg)),
        cells_known(r.0@, final(reg).tiles@),
        r.1 == spec_full(r.0@),
        exists|i: int| 0 <= i < 400 && (#[trigger] r.0@[i]) is Some,
{
    let mut grid = Grid::new();
    let ghost g0 = grid@;
    place_city(&mut grid, reg, rng);
    let ghost g_city = grid@;
    proof {
        // the city's anchor cell is occupied
        let (cx, cy): (int, int) = choose|cx: int, cy: int|
            2 <= cx <= 19 && 2 <= cy <= 19 && g_city == spec_city(
                g0,
                cx,
                cy,
                spec_snapshot(reg.tiles@[reg.village as int]),
            ) && g_city[cell_index(cx, cy)] is Some;
        assert(0 <= cell_index(cx, cy) < 400);
        assert(exists|i: int| 0 <= i < 400 && (#[trigger] g_city[i]) is Some) by {
            assert(g_city[cell_index(cx, cy)] is Some);
        }
    }
    let mut ants = seed_villages(&mut grid, reg, rng, num_villages);
    proof {
        // and it stays occupied across the seeding step
        let wi = choose|i: int| 0 <= i < 400 && (#[trigger] g_city[i]) is Some;
        assert(grid@[wi] == g_city[wi]);
    }
    let mut full = grid.is_full();
    let mut ticks: usize = 0;
    while !full && ticks < MAX_TICKS
        invariant
            grid.wf(),
            reg.wf(),
            same_shape(*old(reg), *reg),
            quotas_monotone(*old(reg), *reg),
            cells_known(grid@, reg.tiles@),
            ants_ok(ants@, grid@),
            full == spec_full(grid@),
            ticks <= MAX_TICKS,
            exists|i: int| 0 <= i < 400 && (#[trigger] grid@[i]) is Some,
        decreases MAX_TICKS - ticks,
    {
        let ghost reg1 = *reg;
        let ghost g1 = grid@;
        tick(&mut grid, reg, &mut ants, rng);
        proof {
            lemma_same_shape_trans(*old(reg), reg1, *reg);
            lemma_quotas_trans(*old(reg), reg1, *reg);
            let wi = choose|i: int| 0 <= i < 400 && (#[trigger] g1[i]) is Some;
            assert(grid@[wi] == g1[wi]);
        }
        full = grid.is_full();
        ticks = ticks + 1;
    }
    (grid, full)
}

} // verus!
