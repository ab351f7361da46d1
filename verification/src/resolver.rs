//! The transition resolver: from a source tile's weighted table and a d20
//! roll to the next tile to attempt, with wildcard rolls and decay toward
//! the corruption tile when quotas are exhausted.

use vstd::prelude::*;
use crate::tile::Entry;
use crate::registry::{Registry, table_ok};
use crate::dice::{roll_d20, pick_index};

verus! {

/// The table scan: the target of the last entry, in declaration order, whose
/// inclusive range contains the roll; `None` when no entry matches.
pub open spec fn spec_scan(table: Seq<Entry>, r: int) -> Option<int>
    decreases table.len(),
{
    if table.len() == 0 {
        None
    } else {
        let e = table[table.len() - 1];
        if e.lower <= r <= e.upper {
            Some(e.target as int)
        } else {
            spec_scan(table.drop_last(), r)
        }
    }
}

/// One resolution step: a roll of 1 or 20 takes the wildcard draw, any other
/// roll takes the table scan, and a roll no entry matches keeps the previous
/// target.
pub open spec fn spec_step(table: Seq<Entry>, r: int, wild: int, prev: int) -> int {
    if r == 1 || r == 20 {
        wild
    } else {
        match spec_scan(table, r) {
            Some(t) => t,
            None => prev,
        }
    }
}

/// When several entries' ranges contain the roll, the scan resolves to the
/// last matching entry in declaration order.
pub proof fn lemma_scan_last_match(table: Seq<Entry>, r: int, j: int)
    requires
        0 <= j < table.len(),
        table[j].lower <= r <= table[j].upper,
        forall|k: int| j < k < table.len() ==> !(table[k].lower <= r <= #[trigger] table[k].upper),
    ensures
        spec_scan(table, r) == Some(table[j].target as int),
    decreases table.len(),
{
    if j == table.len() - 1 {
    } else {
        assert(table.drop_last()[j] == table[j]);
        lemma_scan_last_match(table.drop_last(), r, j);
    }
}

/// A roll of exactly 1 or 20 ignores the source tile's own transition table:
/// whatever two tables and previous targets are at hand, the step resolves to
/// the wildcard draw alone.
pub proof fn lemma_wildcard_ignores_table(
    t1: Seq<Entry>,
    t2: Seq<Entry>,
    r: int,
    wild: int,
    p1: int,
    p2: int,
)
    requires
        r == 1 || r == 20,
    ensures
        spec_step(t1, r, wild, p1) == wild,
        spec_step(t2, r, wild, p2) == wild,
{
}

/// A scan that resolves stays below any bound the table's targets respect.
pub proof fn lemma_scan_bound(table: Seq<Entry>, r: int, n: int)
    requires
        table_ok(table, n),
    ensures
        spec_scan(table, r) is Some ==> 0 <= spec_scan(table, r)->Some_0 < n,
    decreases table.len(),
{
    if table.len() > 0 {
        assert(table_ok(table.drop_last(), n));
        lemma_scan_bound(table.drop_last(), r, n);
    }
}

/// The table scan, as the resolver runs it: the last matching entry wins and
/// a roll without a match keeps the previous target.
pub fn table_target(table: &Vec<Entry>, r: usize, prev: usize) -> (t: usize)
    ensures
        t as int == match spec_scan(table@, r as int) {
            Some(x) => x,
            None => prev as int,
        },
{
    let n = table.len();
    let mut t = prev;
    let mut j: usize = 0;
    while j < n
        invariant
            n == table@.len(),
            j <= n,
            t as int == match spec_scan(table@.subrange(0, j as int), r as int) {
                Some(x) => x,
                None => prev as int,
            },
        decreases n - j,
    {
        let e = table[j];
        if e.lower <= r && r <= e.upper {
            t = e.target;
        }
        proof {
            assert(table@.subrange(0, j + 1).drop_last() =~= table@.subrange(0, j as int));
            assert(table@.subrange(0, j + 1)[j as int] == table@[j as int]);
        }
        j = j + 1;
    }
    proof {
        assert(table@.subrange(0, n as int) =~= table@);
    }
    t
}

/// One deterministic resolution step over an already-drawn wildcard index.
pub fn next_target(table: &Vec<Entry>, r: usize, wild: usize, prev: usize) -> (t: usize)
    ensures
        t as int == spec_step(table@, r as int, wild as int, prev as int),
{
    if r == 1 || r == 20 {
        wild
    } else {
        table_target(table, r, prev)
    }
}

/// Resolve the next tile to attempt from the source tile at `source`: roll a
/// d20; on 1 or 20 draw uniformly from the whole registry, otherwise scan the
/// source's table (last match wins, initially the corruption tile); skip
/// targets whose quota is exhausted by decaying the roll, down to the
/// corruption tile. The result is always a valid index, and always a tile
/// with remaining quota unless it is the corruption tile.
pub fn roll_next(reg: &Registry, source: usize, rng: &mut rand::rngs::ThreadRng) -> (t: usize)
    requires
        reg.wf(),
        source < reg.tiles@.len(),
    ensures
        t < reg.tiles@.len(),
        reg.tiles@[t as int].limit != 0 || t == reg.corruption,
{
    let n = reg.tiles.len();
    let mut r = roll_d20(rng);
    let mut target = reg.corruption;
    loop
        invariant_except_break
            reg.wf(),
            source < n,
            n == reg.tiles@.len(),
            target < n,
            1 <= r <= 20,
        ensures
            target < n,
            reg.tiles@[target as int].limit != 0 || target == reg.corruption,
        decreases r,
    {
        let wild = if r == 1 || r == 20 {
            pick_index(rng, n)
        } else {
            0
        };
        target = next_target(&reg.tiles[source].table, r, wild, target);
        proof {
            lemma_scan_bound(reg.tiles@[source as int].table@, r as int, n as int);
        }
        if reg.tiles[target].limit != 0 {
            break;
        }
        if r <= 2 {
            target = reg.corruption;
            break;
        }
        r = r - 1;
    }
    target
}

} // verus!
