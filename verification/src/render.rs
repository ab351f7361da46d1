//! The per-pixel color rule a renderer uses to expand one logical cell into
//! a 10x10 pixel block: inner color on the central 4x4 sub-region, outer
//! color on the border.

use vstd::prelude::*;
use crate::color::Color;
use crate::tile::Tile;

verus! {

/// Whether a pixel offset within a 10x10 block lies on the central sub-region.
pub open spec fn spec_pixel_inner(xi: int, yi: int) -> bool {
    3 <= xi <= 6 && 3 <= yi <= 6
}

/// The color of one pixel of a tile's 10x10 block.
pub fn pixel_color(tile: &Tile, xi: usize, yi: usize) -> (c: Color)
    requires
        xi < 10,
        yi < 10,
    ensures
        c == if spec_pixel_inner(xi as int, yi as int) {
            tile.inner_color
        } else {
            tile.color
        },
{
    if 3 <= xi && xi <= 6 && 3 <= yi && yi <= 6 {
        tile.inner_color
    } else {
        tile.color
    }
}

} // verus!
