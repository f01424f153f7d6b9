//! The hero sprite sheet on the home page: a grid of cells, one shown at a
//! time. Each edge of a cell is either the sheet's own edge (outer) or a
//! boundary with another cell (inner); the trim applied depends on it.

use vstd::prelude::*;

verus! {

#[derive(Debug, Clone, Copy, PartialEq, Eq, Structural)]
pub enum SpriteEdgeType {
    Inner,
    Outer,
}

/// Edge types of cell (`col`, `row`) of a `cols` x `rows` grid, in the order
/// top, right, bottom, left: an edge is outer exactly on the grid's border.
pub fn hero_sprite_edge_types(col: u32, row: u32, cols: u32, rows: u32) -> (r: (
    SpriteEdgeType,
    SpriteEdgeType,
    SpriteEdgeType,
    SpriteEdgeType,
))
    requires
        col < u32::MAX,
        row < u32::MAX,
    ensures
        (r.0 == SpriteEdgeType::Outer) == (row == 0),
        (r.1 == SpriteEdgeType::Outer) == (col + 1 >= cols),
        (r.2 == SpriteEdgeType::Outer) == (row + 1 >= rows),
        (r.3 == SpriteEdgeType::Outer) == (col == 0),
{
    let top = if row == 0 {
        SpriteEdgeType::Outer
    } else {
        SpriteEdgeType::Inner
    };
    let right = if col + 1 >= cols {
        SpriteEdgeType::Outer
    } else {
        SpriteEdgeType::Inner
    };
    let bottom = if row + 1 >= rows {
        SpriteEdgeType::Outer
    } else {
        SpriteEdgeType::Inner
    };
    let left = if col == 0 {
        SpriteEdgeType::Outer
    } else {
        SpriteEdgeType::Inner
    };
    (top, right, bottom, left)
}

} // verus!
