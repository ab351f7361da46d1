//! Tile records as read from configuration, resolved tile definitions,
//! and the immutable tile snapshots stored in the grid.

use vstd::prelude::*;
use crate::color::Color;

verus! {

/// The default for the three role flags of a tile record.
pub fn false_v() -> (b: bool)
    ensures
        b == false,
{
    false
}

/// One weighted transition entry of a tile record: a target tile name and an
/// inclusive roll range.
pub struct NextGen {
    pub name: String,
    pub lower: usize,
    pub upper: usize,
}

/// A tile record as it comes out of the configuration document, colors still
/// as hex strings and transition targets still as names.
pub struct TileRecord {
    pub name: String,
    pub color: String,
    pub inner_color: Option<String>,
    pub village: bool,
    pub tower: bool,
    pub corruption: bool,
    pub nextgen: Vec<NextGen>,
    pub limit: usize,
}

/// A resolved transition entry: the registry index of the target tile and an
/// inclusive roll range.
#[derive(Clone, Copy, PartialEq, Eq, Structural, Debug)]
pub struct Entry {
    pub target: usize,
    pub lower: usize,
    pub upper: usize,
}

/// A resolved tile definition: parsed colors, a remaining placement quota and
/// a transition table over registry indices.
pub struct TileDef {
    pub name: String,
    pub color: Color,
    pub inner_color: Color,
    pub village: bool,
    pub tower: bool,
    pub corruption: bool,
    pub table: Vec<Entry>,
    pub limit: usize,
}

/// An immutable snapshot of a tile definition at the moment of placement;
/// this is what grid cells hold. Later quota changes do not touch it.
#[derive(Clone, Debug)]
pub struct Tile {
    pub name: String,
    pub color: Color,
    pub inner_color: Color,
}

/// The snapshot a tile definition yields when placed.
pub open spec fn spec_snapshot(d: TileDef) -> Tile {
    Tile { name: d.name, color: d.color, inner_color: d.inner_color }
}

impl TileDef {
    /// Copy the identity and colors of this definition into a placed tile.
    pub fn snapshot(&self) -> (t: Tile)
        ensures
            t == spec_snapshot(*self),
    {
        Tile { name: self.name.clone(), color: self.color, inner_color: self.inner_color }
    }
}

/// The fatal configuration errors: a color string that is not `#RRGGBB`,
/// two tiles with one name, a transition naming an unknown tile, and a
/// missing village, tower or corruption tile.
#[derive(Clone, Copy, PartialEq, Eq, Structural, Debug)]
pub enum ConfigError {
    BadColor,
    DuplicateTile,
    UnknownTile,
    MissingRoleTile,
}

} // verus!
