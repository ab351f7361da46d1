//! The tile registry: the sole owner of tile definitions and their quotas.
//!
//! Built once from configuration records; resolves transition-target names to
//! indices, finds the distinguished village / tower / corruption tiles, and is
//! the only place where a quota is ever decremented.

use vstd::prelude::*;
use crate::color::{Color, spec_color, parse_color};
use crate::tile::{TileRecord, TileDef, Entry, ConfigError};

verus! {

/// Some record carries the given name.
pub open spec fn record_named(recs: Seq<TileRecord>, name: Seq<char>) -> bool {
    exists|i: int| 0 <= i < recs.len() && recs[i].name@ == name
}

/// No two records share a name.
pub open spec fn records_unique(recs: Seq<TileRecord>) -> bool {
    forall|i: int, j: int| 0 <= i < j < recs.len() ==> recs[i].name@ != recs[j].name@
}

/// Both color strings of a record are valid `#RRGGBB` strings.
pub open spec fn record_colors_ok(rec: TileRecord) -> bool {
    &&& spec_color(rec.color@) is Some
    &&& (rec.inner_color is Some ==> spec_color(rec.inner_color->Some_0@) is Some)
}

/// The outer color a record resolves to.
pub open spec fn spec_outer(rec: TileRecord) -> Color {
    spec_color(rec.color@)->Some_0
}

/// The inner color a record resolves to: the outer color when unspecified.
pub open spec fn spec_inner(rec: TileRecord) -> Color {
    if rec.inner_color is Some {
        spec_color(rec.inner_color->Some_0@)->Some_0
    } else {
        spec_outer(rec)
    }
}

/// Every transition entry of the record names a tile that exists.
pub open spec fn record_targets_known(rec: TileRecord, recs: Seq<TileRecord>) -> bool {
    forall|j: int| 0 <= j < rec.nextgen@.len()
        ==> record_named(recs, #[trigger] rec.nextgen@[j].name@)
}

/// A configuration is accepted exactly when every color parses, names are
/// unique, every transition target exists, and a village, a tower and a
/// corruption tile are all present.
pub open spec fn config_ok(recs: Seq<TileRecord>) -> bool {
    &&& forall|i: int| 0 <= i < recs.len() ==> record_colors_ok(#[trigger] recs[i])
    &&& records_unique(recs)
    &&& forall|i: int| 0 <= i < recs.len() ==> record_targets_known(#[trigger] recs[i], recs)
    &&& exists|i: int| 0 <= i < recs.len() && recs[i].village
    &&& exists|i: int| 0 <= i < recs.len() && recs[i].tower
    &&& exists|i: int| 0 <= i < recs.len() && recs[i].corruption
}

/// No two definitions share a name.
pub open spec fn defs_unique(tiles: Seq<TileDef>) -> bool {
    forall|i: int, j: int| 0 <= i < j < tiles.len() ==> tiles[i].name@ != tiles[j].name@
}

/// Some definition carries the given name.
pub open spec fn def_named(tiles: Seq<TileDef>, name: Seq<char>) -> bool {
    exists|j: int| 0 <= j < tiles.len() && tiles[j].name@ == name
}

/// Every target index of the table lies below `n`.
pub open spec fn table_ok(table: Seq<Entry>, n: int) -> bool {
    forall|j: int| 0 <= j < table.len() ==> 0 <= #[trigger] table[j].target < n
}

/// The definition at `i` resolves the record at `i`: same name, flags, quota
/// and table ranges; colors parsed; each table target pointing at the record
/// that carries the entry's name.
pub open spec fn def_matches(recs: Seq<TileRecord>, tiles: Seq<TileDef>, i: int) -> bool {
    &&& tiles[i].name@ == recs[i].name@
    &&& tiles[i].color == spec_outer(recs[i])
    &&& tiles[i].inner_color == spec_inner(recs[i])
    &&& tiles[i].village == recs[i].village
    &&& tiles[i].tower == recs[i].tower
    &&& tiles[i].corruption == recs[i].corruption
    &&& tiles[i].limit == recs[i].limit
    &&& tiles[i].table@.len() == recs[i].nextgen@.len()
    &&& forall|j: int| 0 <= j < recs[i].nextgen@.len() ==> {
        let e = #[trigger] tiles[i].table@[j];
        let g = recs[i].nextgen@[j];
        &&& e.lower == g.lower
        &&& e.upper == g.upper
        &&& 0 <= e.target < recs.len()
        &&& recs[e.target as int].name@ == g.name@
    }
}

/// Two definitions that agree on everything but the remaining quota.
pub open spec fn same_def_but_limit(a: TileDef, b: TileDef) -> bool {
    &&& a.name == b.name
    &&& a.color == b.color
    &&& a.inner_color == b.inner_color
    &&& a.village == b.village
    &&& a.tower == b.tower
    &&& a.corruption == b.corruption
    &&& a.table@ == b.table@
}

/// Holds every tile definition; all other components address tiles through
/// indices into it.
pub struct Registry {
    pub tiles: Vec<TileDef>,
    pub village: usize,
    pub tower: usize,
    pub corruption: usize,
}

impl Registry {
    /// The three role indices are valid and carry their flags, names are
    /// unique, and every transition target index is in range.
    pub open spec fn wf(&self) -> bool {
        &&& self.tiles@.len() >= 1
        &&& self.village < self.tiles@.len()
        &&& self.tower < self.tiles@.len()
        &&& self.corruption < self.tiles@.len()
        &&& self.tiles@[self.village as int].village
        &&& self.tiles@[self.tower as int].tower
        &&& self.tiles@[self.corruption as int].corruption
        &&& defs_unique(self.tiles@)
        &&& forall|i: int| 0 <= i < self.tiles@.len()
            ==> table_ok(#[trigger] self.tiles@[i].table@, self.tiles@.len() as int)
    }

    /// The index of the tile with the given name; `UnknownTile` when no tile
    /// carries it.
    pub fn lookup(&self, name: &String) -> (r: Result<usize, ConfigError>)
        ensures
            r is Ok <==> def_named(self.tiles@, name@),
            r is Ok ==> r->Ok_0 < self.tiles@.len()
                && self.tiles@[r->Ok_0 as int].name@ == name@,
            r is Err ==> r->Err_0 == ConfigError::UnknownTile,
    {
        let n = self.tiles.len();
        let mut i: usize = 0;
        while i < n
            invariant
                n == self.tiles@.len(),
                i <= n,
                forall|k: int| 0 <= k < i ==> self.tiles@[k].name@ != name@,
            decreases n - i,
        {
            if self.tiles[i].name == *name {
                return Ok(i);
            }
            i = i + 1;
        }
        Err(ConfigError::UnknownTile)
    }

    /// Decrement the remaining quota of the tile at `i` by one, and never
    /// below zero; nothing else about the registry changes.
    pub fn decrement_quota(&mut self, i: usize)
        requires
            old(self).wf(),
            i < old(self).tiles@.len(),
        ensures
            final(self).wf(),
            final(self).tiles@.len() == old(self).tiles@.len(),
            final(self).village == old(self).village,
            final(self).tower == old(self).tower,
            final(self).corruption == old(self).corruption,
            forall|j: int| 0 <= j < old(self).tiles@.len() && j != i
                ==> final(self).tiles@[j] == old(self).tiles@[j],
            same_def_but_limit(old(self).tiles@[i as int], final(self).tiles@[i as int]),
            final(self).tiles@[i as int].limit == (
                if old(self).tiles@[i as int].limit > 0 {
                    old(self).tiles@[i as int].limit - 1
                } else {
                    0
                }
            ),
    {
        let mut d = self.tiles.remove(i);
        if d.limit > 0 {
            d.limit = d.limit - 1;
        }
        self.tiles.insert(i, d);
        proof {
            assert(final(self).tiles@ =~= old(self).tiles@.update(
                i as int,
                final(self).tiles@[i as int],
            ));
        }
    }

    /// Build the registry from configuration records. Succeeds exactly on an
    /// accepted configuration; then each definition resolves its record, and
    /// the role indices are the first village, tower and corruption records.
    pub fn new(records: Vec<TileRecord>) -> (r: Result<Registry, ConfigError>)
        ensures
            r is Ok <==> config_ok(records@),
            r is Ok ==> {
                let reg = r->Ok_0;
                &&& reg.wf()
                &&& reg.tiles@.len() == records@.len()
                &&& forall|i: int| 0 <= i < records@.len()
                    ==> def_matches(records@, reg.tiles@, i)
                &&& reg.village < records@.len() && records@[reg.village as int].village
                    && (forall|k: int| 0 <= k < reg.village ==> !records@[k].village)
                &&& reg.tower < records@.len() && records@[reg.tower as int].tower
                    && (forall|k: int| 0 <= k < reg.tower ==> !records@[k].tower)
                &&& reg.corruption < records@.len() && records@[reg.corruption as int].corruption
                    && (forall|k: int| 0 <= k < reg.corruption ==> !records@[k].corruption)
            },
            r == Err::<Registry, ConfigError>(ConfigError::BadColor)
                ==> exists|i: int| 0 <= i < records@.len()
                    && !record_colors_ok(#[trigger] records@[i]),
            r == Err::<Registry, ConfigError>(ConfigError::DuplicateTile)
                ==> !records_unique(records@),
            r == Err::<Registry, ConfigError>(ConfigError::UnknownTile)
                ==> exists|i: int| 0 <= i < records@.len()
                    && !record_targets_known(#[trigger] records@[i], records@),
            r == Err::<Registry, ConfigError>(ConfigError::MissingRoleTile)
                ==> !(exists|i: int| 0 <= i < records@.len() && records@[i].village)
                    || !(exists|i: int| 0 <= i < records@.len() && records@[i].tower)
                    || !(exists|i: int| 0 <= i < records@.len() && records@[i].corruption),
    {
        let n = records.len();
        // names must be unique
        let mut i: usize = 0;
        while i < n
            invariant
                n == records@.len(),
                i <= n,
                forall|a: int, b: int| 0 <= a < b < records@.len() && a < i
                    ==> records@[a].name@ != records@[b].name@,
            decreases n - i,
        {
            let mut j: usize = i + 1;
            while j < n
                invariant
                    n == records@.len(),
                    i < j || i + 1 == j,
                    i < n,
                    j <= n,
                    forall|b: int| i < b < j ==> records@[i as int].name@ != records@[b].name@,
                decreases n - j,
            {
                if records[i].name == records[j].name {
                    return Err(ConfigError::DuplicateTile);
                }
                j = j + 1;
            }
            i = i + 1;
        }
        // resolve each record into a definition
        let mut tiles: Vec<TileDef> = Vec::new();
        let mut i: usize = 0;
        while i < n
            invariant
                n == records@.len(),
                i <= n,
                tiles@.len() == i,
                forall|k: int| 0 <= k < i ==> record_colors_ok(#[trigger] records@[k])
                    && record_targets_known(records@[k], records@),
                forall|k: int| 0 <= k < i ==> def_matches(records@, tiles@, k),
            decreases n - i,
        {
            let ghost t0 = tiles@;
            match build_def(&records, i) {
                Ok(d) => {
                    tiles.push(d);
                }
                Err(e) => {
                    return Err(e);
                }
            }
            proof {
                assert(def_matches(records@, tiles@, i as int));
                assert forall|k: int| 0 <= k < i implies def_matches(
                    records@,
                    tiles@,
                    k,
                ) by {
                    assert(tiles@[k] == t0[k]);
                    assert(def_matches(records@, t0, k));
                }
            }
            i = i + 1;
        }
        // find the first record of each role
        let village = match find_role(&records, 0) {
            Some(v) => v,
            None => {
                return Err(ConfigError::MissingRoleTile);
            }
        };
        let tower = match find_role(&records, 1) {
            Some(v) => v,
            None => {
                return Err(ConfigError::MissingRoleTile);
            }
        };
        let corruption = match find_role(&records, 2) {
            Some(v) => v,
            None => {
                return Err(ConfigError::MissingRoleTile);
            }
        };
        let reg = Registry { tiles, village, tower, corruption };
        proof {
            assert(def_matches(records@, reg.tiles@, village as int));
            assert(def_matches(records@, reg.tiles@, tower as int));
            assert(def_matches(records@, reg.tiles@, corruption as int));
            assert forall|a: int, b: int| 0 <= a < b < reg.tiles@.len() implies
                reg.tiles@[a].name@ != reg.tiles@[b].name@ by {
                assert(def_matches(records@, reg.tiles@, a));
                assert(def_matches(records@, reg.tiles@, b));
            }
            assert forall|i2: int| 0 <= i2 < reg.tiles@.len() implies
                table_ok(#[trigger] reg.tiles@[i2].table@, reg.tiles@.len() as int) by {
                assert(def_matches(records@, reg.tiles@, i2));
            }
        }
        Ok(reg)
    }
}

/// The role flag of a record selected by a small role code:
/// 0 village, 1 tower, anything else corruption.
pub open spec fn spec_role_flag(rec: TileRecord, role: int) -> bool {
    if role == 0 {
        rec.village
    } else if role == 1 {
        rec.tower
    } else {
        rec.corruption
    }
}

/// The first record carrying the role flag, if any.
fn find_role(records: &Vec<TileRecord>, role: u8) -> (r: Option<usize>)
    ensures
        r is Some ==> r->Some_0 < records@.len()
            && spec_role_flag(records@[r->Some_0 as int], role as int)
            && (forall|k: int| 0 <= k < r->Some_0
                ==> !spec_role_flag(#[trigger] records@[k], role as int)),
        r is None ==> forall|k: int| 0 <= k < records@.len()
            ==> !spec_role_flag(#[trigger] records@[k], role as int),
{
    let n = records.len();
    let mut i: usize = 0;
    while i < n
        invariant
            n == records@.len(),
            i <= n,
            forall|k: int| 0 <= k < i ==> !spec_role_flag(#[trigger] records@[k], role as int),
        decreases n - i,
    {
        let rec = &records[i];
        let flag = if role == 0 {
            rec.village
        } else if role == 1 {
            rec.tower
        } else {
            rec.corruption
        };
        if flag {
            return Some(i);
        }
        i = i + 1;
    }
    None
}

/// The index of the record with the given name, scanning from the front.
fn find_record(records: &Vec<TileRecord>, name: &String) -> (r: Option<usize>)
    ensures
        r is Some ==> r->Some_0 < records@.len()
            && records@[r->Some_0 as int].name@ == name@,
        r is Some <==> record_named(records@, name@),
{
    let n = records.len();
    let mut i: usize = 0;
    while i < n
        invariant
            n == records@.len(),
            i <= n,
            forall|k: int| 0 <= k < i ==> records@[k].name@ != name@,
        decreases n - i,
    {
        if records[i].name == *name {
            return Some(i);
        }
        i = i + 1;
    }
    None
}

/// Resolve the record at `i`: parse its colors and turn each transition
/// target name into the index of the record carrying it.
fn build_def(records: &Vec<TileRecord>, i: usize) -> (r: Result<TileDef, ConfigError>)
    requires
        i < records@.len(),
    ensures
        r is Ok <==> record_colors_ok(records@[i as int])
            && record_targets_known(records@[i as int], records@),
        r is Ok ==> {
            let recs = records@;
            let d = r->Ok_0;
            let rec = recs[i as int];
            &&& d.name@ == rec.name@
            &&& d.color == spec_outer(rec)
            &&& d.inner_color == spec_inner(rec)
            &&& d.village == rec.village
            &&& d.tower == rec.tower
            &&& d.corruption == rec.corruption
            &&& d.limit == rec.limit
            &&& d.table@.len() == rec.nextgen@.len()
            &&& forall|j: int| 0 <= j < rec.nextgen@.len() ==> {
                let e = #[trigger] d.table@[j];
                let g = rec.nextgen@[j];
                &&& e.lower == g.lower
                &&& e.upper == g.upper
                &&& 0 <= e.target < recs.len()
                &&& recs[e.target as int].name@ == g.name@
            }
        },
        r == Err::<TileDef, ConfigError>(ConfigError::BadColor)
            ==> !record_colors_ok(records@[i as int]),
        r == Err::<TileDef, ConfigError>(ConfigError::UnknownTile)
            ==> !record_targets_known(records@[i as int], records@),
        r is Err ==> r->Err_0 == ConfigError::BadColor || r->Err_0 == ConfigError::UnknownTile,
{
    let rec = &records[i];
    let color = match parse_color(rec.color.as_str()) {
        Some(c) => c,
        None => {
            return Err(ConfigError::BadColor);
        }
    };
    let inner_color = match &rec.inner_color {
        Some(s) => {
            match parse_color(s.as_str()) {
                Some(c) => c,
                None => {
                    return Err(ConfigError::BadColor);
                }
            }
        }
        None => color,
    };
    let m = rec.nextgen.len();
    let mut table: Vec<Entry> = Vec::new();
    let mut j: usize = 0;
    while j < m
        invariant
            i < records@.len(),
            m == records@[i as int].nextgen@.len(),
            j <= m,
            table@.len() == j,
            forall|k: int| 0 <= k < j ==> {
                let e = #[trigger] table@[k];
                let g = records@[i as int].nextgen@[k];
                &&& e.lower == g.lower
                &&& e.upper == g.upper
                &&& 0 <= e.target < records@.len()
                &&& records@[e.target as int].name@ == g.name@
            },
            forall|k: int| 0 <= k < j
                ==> record_named(records@, #[trigger] records@[i as int].nextgen@[k].name@),
        decreases m - j,
    {
        let g = &records[i].nextgen[j];
        let target = match find_record(records, &g.name) {
            Some(t) => t,
            None => {
                return Err(ConfigError::UnknownTile);
            }
        };
        table.push(Entry { target, lower: g.lower, upper: g.upper });
        j = j + 1;
    }
    Ok(TileDef {
        name: records[i].name.clone(),
        color,
        inner_color,
        village: records[i].village,
        tower: records[i].tower,
        corruption: records[i].corruption,
        table,
        limit: records[i].limit,
    })
}

} // verus!
