//! A single grid cell: whether it blocks movement, whether it blocks sight,
//! and whether the player has ever seen it (the `explored` latch).

use vstd::prelude::*;

verus! {

/// One cell of the dungeon grid.
#[derive(Clone, Copy, Debug)]
pub struct Tile {
    pub blocked: bool,
    pub explored: bool,
    pub block_sight: bool,
}

impl Tile {
    /// The tile a carved (walkable) cell holds: open to movement and to sight,
    /// not yet explored.
    pub fn empty() -> (t: Tile)
        ensures
            t == Tile::empty_tile(),
    {
        Tile { blocked: false, explored: false, block_sight: false }
    }

    /// The tile every cell starts as: a wall, opaque and unexplored.
    pub fn wall() -> (t: Tile)
        ensures
            t == Tile::wall_tile(),
    {
        Tile { blocked: true, explored: false, block_sight: true }
    }

    /// The value `empty` returns.
    pub open spec fn empty_tile() -> Tile {
        Tile { blocked: false, explored: false, block_sight: false }
    }

    /// The value `wall` returns.
    pub open spec fn wall_tile() -> Tile {
        Tile { blocked: true, explored: false, block_sight: true }
    }

    /// Overwrite the explored flag; the one-way-latch discipline (never back
    /// to `false` once seen) is kept by the visibility engine, not here.
    pub fn set_explored(&mut self, value: bool)
        ensures
            *final(self) == (Tile { explored: value, ..*old(self) }),
    {
        self.explored = value;
    }

    pub fn is_blocked(self) -> (b: bool)
        ensures
            b == self.blocked,
    {
        self.blocked
    }

    pub fn is_block_sight(self) -> (b: bool)
        ensures
            b == self.block_sight,
    {
        self.block_sight
    }

    pub fn is_explored(self) -> (b: bool)
        ensures
            b == self.explored,
    {
        self.explored
    }
}

} // verus!
