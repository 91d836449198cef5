//! One cell of the dungeon grid.

use vstd::prelude::*;

verus! {

/// A tile of the map and its properties.
#[derive(Clone, Copy, Debug, PartialEq, Eq, Structural)]
pub struct Tile {
    /// Nothing can walk through a blocked tile.
    pub blocked: bool,
    /// Set once the tile has been seen; never cleared.
    pub explored: bool,
    /// A tile that blocks sight hides what lies behind it.
    pub block_sight: bool,
}

impl Tile {
    /// The floor tile: passable, transparent, not yet explored.
    pub open spec fn empty_spec() -> Tile {
        Tile { blocked: false, explored: false, block_sight: false }
    }

    /// The wall tile: impassable, opaque, not yet explored.
    pub open spec fn wall_spec() -> Tile {
        Tile { blocked: true, explored: false, block_sight: true }
    }

    /// A passable, transparent, unexplored tile.
    #[verifier::when_used_as_spec(empty_spec)]
    pub fn empty() -> (t: Tile)
        ensures
            t == Tile::empty_spec(),
    {
        Tile { blocked: false, explored: false, block_sight: false }
    }

    /// An impassable, opaque, unexplored tile.
    #[verifier::when_used_as_spec(wall_spec)]
    pub fn wall() -> (t: Tile)
        ensures
            t == Tile::wall_spec(),
    {
        Tile { blocked: true, explored: false, block_sight: true }
    }
}

} // verus!
