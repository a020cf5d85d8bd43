//! Rectangular carve regions used during generation. A room spans
//! `[left_x, right_x)` by `[bottom_y, top_y)`; the right and top bounds are
//! exclusive. Tunnels are carved as degenerate one-tile-wide rooms.

use vstd::prelude::*;

use crate::grid::TileGrid;
use crate::tile::Tile;
use crate::unit::{Coordinates, Unit};

verus! {

/// An axis-aligned rectangle, plus a transient monster list used only
/// during generation.
#[derive(Debug)]
pub struct Room {
    pub left_x: i32,
    pub top_y: i32,
    pub right_x: i32,
    pub bottom_y: i32,
    pub monsters: Vec<Unit>,
}

impl Room {
    /// The cells this room covers.
    pub open spec fn covers(self, x: int, y: int) -> bool {
        &&& self.left_x <= x < self.right_x
        &&& self.bottom_y <= y < self.top_y
    }

    /// The tunnel-intersection test: strict inequalities, so rectangles that
    /// merely touch at an edge do not count as overlapping. Used to detect
    /// whether two carved tunnel segments already meet at their elbow.
    pub open spec fn spec_intersects_as_tunnels(self, other: Room) -> bool {
        &&& self.left_x < other.right_x
        &&& self.right_x > other.left_x
        &&& self.top_y > other.bottom_y
        &&& self.bottom_y < other.top_y
    }

    /// The room-placement test: inclusive inequalities, so rectangles that
    /// touch (or sit one cell apart at the shared bound) count as
    /// overlapping. Used to reject overlapping rooms during generation.
    pub open spec fn spec_intersects_as_rooms(self, other: Room) -> bool {
        &&& self.left_x <= other.right_x
        &&& self.right_x >= other.left_x
        &&& self.top_y >= other.bottom_y
        &&& self.bottom_y <= other.top_y
    }

    /// The integer midpoint of the bounds, rounding toward left/bottom on
    /// ties.
    pub open spec fn spec_center(self) -> Coordinates {
        Coordinates {
            x: ((self.left_x + self.right_x) / 2) as i32,
            y: ((self.top_y + self.bottom_y) / 2) as i32,
        }
    }

    pub fn new(left_x: i32, right_x: i32, bottom_y: i32, top_y: i32) -> (room: Room)
        ensures
            room.left_x == left_x,
            room.right_x == right_x,
            room.bottom_y == bottom_y,
            room.top_y == top_y,
            room.monsters@ == Seq::<Unit>::empty(),
    {
        Room { left_x, right_x, top_y, bottom_y, monsters: Vec::new() }
    }

    /// Carve this room into the grid: every covered in-range cell becomes the
    /// empty tile; cells outside the room (or outside the grid) are untouched.
    pub fn fill(&self, grid: &mut TileGrid)
        requires
            old(grid).wf(),
        ensures
            final(grid).wf(),
            final(grid).width == old(grid).width,
            final(grid).height == old(grid).height,
            forall|x: int, y: int|
                old(grid).in_bounds(x, y) ==> #[trigger] final(grid).tile_at(x, y)
                    == if self.covers(x, y) {
                        Tile::empty_tile()
                    } else {
                        old(grid).tile_at(x, y)
                    },
    {
        let ghost orig = *grid;
        let mut x: i32 = self.left_x;
        while x < self.right_x
            invariant
                grid.wf(),
                grid.width == orig.width,
                grid.height == orig.height,
                self.left_x <= x,
                x <= self.right_x || x == self.left_x,
                forall|xi: int, yi: int|
                    orig.in_bounds(xi, yi) ==> #[trigger] grid.tile_at(xi, yi)
                        == if self.covers(xi, yi) && xi < x {
                            Tile::empty_tile()
                        } else {
                            orig.tile_at(xi, yi)
                        },
            decreases self.right_x - x,
        {
            let mut y: i32 = self.bottom_y;
            while y < self.top_y
                invariant
                    grid.wf(),
                    grid.width == orig.width,
                    grid.height == orig.height,
                    self.left_x <= x < self.right_x,
                    self.bottom_y <= y,
                    y <= self.top_y || y == self.bottom_y,
                    forall|xi: int, yi: int|
                        orig.in_bounds(xi, yi) ==> #[trigger] grid.tile_at(xi, yi)
                            == if self.covers(xi, yi) && (xi < x || (xi == x && yi < y)) {
                                Tile::empty_tile()
                            } else {
                                orig.tile_at(xi, yi)
                            },
                decreases self.top_y - y,
            {
                grid.set(x, y, Tile::empty());
                y += 1;
            }
            x += 1;
        }
    }

    /// The center of the room, for tunnel endpoints and the player spawn.
    pub fn get_center(&self) -> (center: Coordinates)
        requires
            0 <= self.left_x + self.right_x <= i32::MAX,
            0 <= self.top_y + self.bottom_y <= i32::MAX,
        ensures
            center == self.spec_center(),
    {
        let x = (self.left_x + self.right_x) / 2;
        let y = (self.top_y + self.bottom_y) / 2;

        Coordinates { x, y }
    }

    /// The center of a non-degenerate room lies inside it.
    pub proof fn lemma_center_in_room(self)
        requires
            0 <= self.left_x < self.right_x <= 0x2000_0000,
            0 <= self.bottom_y < self.top_y <= 0x2000_0000,
        ensures
            self.covers(self.spec_center().x as int, self.spec_center().y as int),
    {
    }

    pub fn intersects_with_as_tunnels(&self, room: &Room) -> (r: bool)
        ensures
            r == self.spec_intersects_as_tunnels(*room),
    {
        (self.left_x < room.right_x) && (self.right_x > room.left_x) && (self.top_y
            > room.bottom_y) && (self.bottom_y < room.top_y)
    }

    pub fn intersects_with_as_rooms(&self, room: &Room) -> (r: bool)
        ensures
            r == self.spec_intersects_as_rooms(*room),
    {
        (self.left_x <= room.right_x) && (self.right_x >= room.left_x) && (self.top_y
            >= room.bottom_y) && (self.bottom_y <= room.top_y)
    }
}

} // verus!
