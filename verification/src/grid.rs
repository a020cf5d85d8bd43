//! The tile grid a dungeon owns: `width` columns by `height` rows, addressed
//! as `(x, y)` with `0 <= x < width` and `0 <= y < height`. Out-of-range
//! addressing fails explicitly; it never wraps and never panics.

use vstd::prelude::*;

use crate::tile::Tile;

verus! {

/// A rectangular grid of tiles, every cell initially a wall.
pub struct TileGrid {
    pub tiles: Vec<Vec<Tile>>,
    pub width: i32,
    pub height: i32,
}

impl TileGrid {
    /// Well-formed: positive dimensions small enough for all coordinate
    /// arithmetic to stay inside `i32`/`i64`, and a tile matrix of exactly
    /// those dimensions.
    pub open spec fn wf(self) -> bool {
        &&& 0 < self.width <= 0x2000_0000
        &&& 0 < self.height <= 0x2000_0000
        &&& self.tiles@.len() == self.width
        &&& forall|i: int|
            0 <= i < self.tiles@.len() ==> (#[trigger] self.tiles@[i])@.len() == self.height
    }

    pub open spec fn tile_at(self, x: int, y: int) -> Tile {
        self.tiles@[x]@[y]
    }

    pub open spec fn in_bounds(self, x: int, y: int) -> bool {
        &&& 0 <= x < self.width
        &&& 0 <= y < self.height
    }

    /// A fresh grid of walls.
    pub fn new(width: i32, height: i32) -> (grid: TileGrid)
        requires
            0 < width <= 0x2000_0000,
            0 < height <= 0x2000_0000,
        ensures
            grid.wf(),
            grid.width == width,
            grid.height == height,
            forall|x: int, y: int|
                grid.in_bounds(x, y) ==> grid.tile_at(x, y) == Tile::wall_tile(),
    {
        let mut tiles: Vec<Vec<Tile>> = Vec::new();
        let mut x: i32 = 0;
        while x < width
            invariant
                0 <= x <= width,
                0 < width <= 0x2000_0000,
                0 < height <= 0x2000_0000,
                tiles@.len() == x,
                forall|i: int| 0 <= i < x ==> (#[trigger] tiles@[i])@.len() == height,
                forall|i: int, j: int|
                    0 <= i < x && 0 <= j < height ==> #[trigger] tiles@[i]@[j]
                        == Tile::wall_tile(),
            decreases width - x,
        {
            let mut column: Vec<Tile> = Vec::new();
            let mut y: i32 = 0;
            while y < height
                invariant
                    0 <= y <= height,
                    column@.len() == y,
                    forall|j: int| 0 <= j < y ==> column@[j] == Tile::wall_tile(),
                decreases height - y,
            {
                column.push(Tile::wall());
                y += 1;
            }
            tiles.push(column);
            x += 1;
        }
        TileGrid { tiles, width, height }
    }

    pub fn get_width(&self) -> (w: i32)
        ensures
            w == self.width,
    {
        self.width
    }

    pub fn get_height(&self) -> (h: i32)
        ensures
            h == self.height,
    {
        self.height
    }

    /// The tile at `(x, y)`, or nothing when the address is out of range.
    pub fn get(&self, x: i32, y: i32) -> (r: Option<Tile>)
        requires
            self.wf(),
        ensures
            r == if self.in_bounds(x as int, y as int) {
                Some(self.tile_at(x as int, y as int))
            } else {
                None::<Tile>
            },
    {
        if x < 0 || x >= self.width || y < 0 || y >= self.height {
            None
        } else {
            Some(self.tiles[x as usize][y as usize])
        }
    }

    /// Overwrite the tile at `(x, y)`; reports whether the address was in
    /// range (an out-of-range write changes nothing).
    pub fn set(&mut self, x: i32, y: i32, tile: Tile) -> (r: bool)
        requires
            old(self).wf(),
        ensures
            final(self).wf(),
            r == old(self).in_bounds(x as int, y as int),
            final(self).width == old(self).width,
            final(self).height == old(self).height,
            forall|xi: int, yi: int|
                old(self).in_bounds(xi, yi) ==> #[trigger] final(self).tile_at(xi, yi)
                    == if r && xi == x && yi == y {
                        tile
                    } else {
                        old(self).tile_at(xi, yi)
                    },
    {
        if x < 0 || x >= self.width || y < 0 || y >= self.height {
            return false;
        }
        self.tiles[x as usize][y as usize] = tile;
        true
    }

    /// Latch the explored flag of the tile at `(x, y)` to true; the rest of
    /// the tile and every other tile stay as they were.
    pub fn mark_explored(&mut self, x: i32, y: i32)
        requires
            old(self).wf(),
            old(self).in_bounds(x as int, y as int),
        ensures
            final(self).wf(),
            final(self).width == old(self).width,
            final(self).height == old(self).height,
            forall|xi: int, yi: int|
                old(self).in_bounds(xi, yi) ==> #[trigger] final(self).tile_at(xi, yi)
                    == if xi == x && yi == y {
                        (Tile { explored: true, ..old(self).tile_at(xi, yi) })
                    } else {
                        old(self).tile_at(xi, yi)
                    },
    {
        self.tiles[x as usize][y as usize].set_explored(true);
    }
}

} // verus!
