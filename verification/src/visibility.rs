//! The field-of-view model: a bounded-radius, sight-blocking-aware sweep
//! from a single origin, recomputed lazily (only when the origin moves) and
//! merged into the tiles' monotonic `explored` latch.
//!
//! A cell is visible when it lies within the radius and a discrete line
//! between it and the origin is free of sight-blocking cells, the endpoints
//! excepted (so walls are lit by the cell in front of them). The line test
//! runs in both directions and accepts either, which makes obstruction
//! symmetric by construction.

use vstd::prelude::*;

use crate::grid::TileGrid;
use crate::num::{abs_i, dist2, lemma_sample_offset_bounds, max_i, sample_offset};
use crate::tile::Tile;
use crate::unit::Coordinates;

verus! {

/// The number of interior sample points of the discrete line from `a` to
/// `b`: one fewer than the span of the major axis.
pub open spec fn line_steps(a: Coordinates, b: Coordinates) -> int {
    max_i(abs_i(b.x - a.x), abs_i(b.y - a.y))
}

/// The rounded minor-axis offset of the `i`-th sample point, signed.
pub open spec fn line_offset(i: int, d: int, n: int) -> int {
    if d >= 0 {
        sample_offset(i, d, n)
    } else {
        -sample_offset(i, -d, n)
    }
}

pub open spec fn line_point_x(a: Coordinates, b: Coordinates, i: int) -> int {
    a.x + line_offset(i, b.x - a.x, line_steps(a, b))
}

pub open spec fn line_point_y(a: Coordinates, b: Coordinates, i: int) -> int {
    a.y + line_offset(i, b.y - a.y, line_steps(a, b))
}

/// Whether the `i`-th sample point of the line from `a` to `b` blocks sight.
pub open spec fn line_blocks(grid: TileGrid, a: Coordinates, b: Coordinates, i: int) -> bool {
    let x = line_point_x(a, b, i);
    let y = line_point_y(a, b, i);
    grid.in_bounds(x, y) && grid.tile_at(x, y).block_sight
}

/// Whether no interior sample point of the line from `a` to `b` blocks
/// sight.
pub open spec fn spec_line_clear(grid: TileGrid, a: Coordinates, b: Coordinates) -> bool {
    forall|i: int| 1 <= i < line_steps(a, b) ==> !line_blocks(grid, a, b, i)
}

/// Whether the cell `(x, y)` is visible from `origin` at the given radius.
pub open spec fn spec_visible(
    grid: TileGrid,
    origin: Coordinates,
    radius: int,
    x: int,
    y: int,
) -> bool {
    &&& grid.in_bounds(x, y)
    &&& dist2(origin.x as int, origin.y as int, x, y) <= radius * radius
    &&& {
        let target = Coordinates { x: x as i32, y: y as i32 };
        spec_line_clear(grid, origin, target) || spec_line_clear(grid, target, origin)
    }
}

/// Obstruction is symmetric: swapping origin and target cell leaves
/// visibility unchanged.
pub proof fn lemma_visibility_symmetric(grid: TileGrid, a: Coordinates, b: Coordinates, radius: int)
    requires
        grid.in_bounds(a.x as int, a.y as int),
        grid.in_bounds(b.x as int, b.y as int),
    ensures
        spec_visible(grid, a, radius, b.x as int, b.y as int) == spec_visible(
            grid,
            b,
            radius,
            a.x as int,
            a.y as int,
        ),
{
    assert((b.x - a.x) * (b.x - a.x) == (a.x - b.x) * (a.x - b.x)) by (nonlinear_arith);
    assert((b.y - a.y) * (b.y - a.y) == (a.y - b.y) * (a.y - b.y)) by (nonlinear_arith);
}

/// The rounded offset `i * d / n`, computed without leaving `u64`.
fn sample_offset_exec(i: i64, d: i64, n: i64) -> (q: i64)
    requires
        1 <= n <= 0x4000_0000,
        0 <= d <= n,
        1 <= i <= n,
    ensures
        q == sample_offset(i as int, d as int, n as int),
        0 <= q <= d,
{
    proof {
        lemma_sample_offset_bounds(i as int, d as int, n as int);
        assert(2 * (i as int) * (d as int) <= 2 * 0x4000_0000 * 0x4000_0000) by (nonlinear_arith)
            requires
                0 <= i <= 0x4000_0000,
                0 <= d <= 0x4000_0000,
        ;
    }
    let num: u64 = 2 * (i as u64) * (d as u64) + (n as u64);
    let den: u64 = 2 * (n as u64);
    let q: u64 = num / den;
    q as i64
}

/// Whether no interior sample point of the line from `a` to `b` blocks
/// sight, walking the line one sample at a time.
fn line_clear(grid: &TileGrid, a: &Coordinates, b: &Coordinates) -> (r: bool)
    requires
        grid.wf(),
        grid.in_bounds(a.x as int, a.y as int),
        grid.in_bounds(b.x as int, b.y as int),
    ensures
        r == spec_line_clear(*grid, *a, *b),
{
    let dx: i64 = b.x as i64 - a.x as i64;
    let dy: i64 = b.y as i64 - a.y as i64;
    let adx: i64 = if dx < 0 {
        -dx
    } else {
        dx
    };
    let ady: i64 = if dy < 0 {
        -dy
    } else {
        dy
    };
    let n: i64 = if adx < ady {
        ady
    } else {
        adx
    };

    let mut i: i64 = 1;
    while i < n
        invariant
            grid.wf(),
            grid.in_bounds(a.x as int, a.y as int),
            grid.in_bounds(b.x as int, b.y as int),
            dx == b.x - a.x,
            dy == b.y - a.y,
            adx == abs_i(dx as int),
            ady == abs_i(dy as int),
            n == line_steps(*a, *b),
            n <= 0x4000_0000,
            1 <= i,
            i <= n || i == 1,
            forall|j: int| 1 <= j < i ==> !line_blocks(*grid, *a, *b, j),
        decreases n - i,
    {
        let qx = sample_offset_exec(i, adx, n);
        let qy = sample_offset_exec(i, ady, n);

        let px64: i64 = if dx >= 0 {
            a.x as i64 + qx
        } else {
            a.x as i64 - qx
        };
        let py64: i64 = if dy >= 0 {
            a.y as i64 + qy
        } else {
            a.y as i64 - qy
        };

        proof {
            assert(px64 == line_point_x(*a, *b, i as int));
            assert(py64 == line_point_y(*a, *b, i as int));
        }

        let px: i32 = px64 as i32;
        let py: i32 = py64 as i32;

        let tile = grid.tiles[px as usize][py as usize];
        if tile.is_block_sight() {
            proof {
                assert(line_blocks(*grid, *a, *b, i as int));
            }
            return false;
        }

        i += 1;
    }
    true
}

/// Whether the cell `(x, y)` is visible from `origin` at the given radius.
fn visible_cell(grid: &TileGrid, origin: &Coordinates, radius: i32, x: i32, y: i32) -> (r: bool)
    requires
        grid.wf(),
        grid.in_bounds(origin.x as int, origin.y as int),
        grid.in_bounds(x as int, y as int),
        0 <= radius <= 10_000,
    ensures
        r == spec_visible(*grid, *origin, radius as int, x as int, y as int),
{
    let dx: i64 = x as i64 - origin.x as i64;
    let dy: i64 = y as i64 - origin.y as i64;
    proof {
        assert(0 <= dx * dx <= 0x1000_0000_0000_0000 && 0 <= dy * dy <= 0x1000_0000_0000_0000)
            by (nonlinear_arith)
            requires
                -0x4000_0000 <= dx <= 0x4000_0000,
                -0x4000_0000 <= dy <= 0x4000_0000,
        ;
    }
    let d2: i64 = dx * dx + dy * dy;
    let r64: i64 = radius as i64;
    proof {
        assert(0 <= r64 * r64 <= 100_000_000) by (nonlinear_arith)
            requires
                0 <= r64 <= 10_000,
        ;
    }
    if d2 > r64 * r64 {
        return false;
    }
    let target = Coordinates { x, y };
    if line_clear(grid, origin, &target) {
        true
    } else {
        line_clear(grid, &target, origin)
    }
}

/// The visible-cell mask, the cache key for the lazy recomputation, and a
/// counter of how many sweeps have actually run.
pub struct VisibilityEngine {
    pub visible: Vec<Vec<bool>>,
    pub width: i32,
    pub height: i32,
    pub prev_origin: Coordinates,
    pub has_computed: bool,
    pub recompute_count: u64,
}

impl VisibilityEngine {
    /// Well-formed: a mask of exactly `width` by `height` cells, dimensions
    /// bounded as the grid's are.
    pub open spec fn wf(self) -> bool {
        &&& 0 < self.width <= 0x2000_0000
        &&& 0 < self.height <= 0x2000_0000
        &&& self.visible@.len() == self.width
        &&& forall|i: int|
            0 <= i < self.visible@.len() ==> (#[trigger] self.visible@[i])@.len() == self.height
    }

    pub open spec fn visible_at(self, x: int, y: int) -> bool {
        self.visible@[x]@[y]
    }

    pub open spec fn in_bounds(self, x: int, y: int) -> bool {
        &&& 0 <= x < self.width
        &&& 0 <= y < self.height
    }

    /// A fresh engine: nothing visible, no sweep run yet.
    pub fn new(width: i32, height: i32) -> (engine: VisibilityEngine)
        requires
            0 < width <= 0x2000_0000,
            0 < height <= 0x2000_0000,
        ensures
            engine.wf(),
            engine.width == width,
            engine.height == height,
            !engine.has_computed,
            engine.recompute_count == 0,
            forall|x: int, y: int| engine.in_bounds(x, y) ==> !engine.visible_at(x, y),
    {
        let mut visible: Vec<Vec<bool>> = Vec::new();
        let mut x: i32 = 0;
        while x < width
            invariant
                0 <= x <= width,
                0 < height <= 0x2000_0000,
                visible@.len() == x,
                forall|i: int| 0 <= i < x ==> (#[trigger] visible@[i])@.len() == height,
                forall|i: int, j: int| 0 <= i < x && 0 <= j < height ==> !(#[trigger] visible@[i]@[j]),
            decreases width - x,
        {
            let mut column: Vec<bool> = Vec::new();
            let mut y: i32 = 0;
            while y < height
                invariant
                    0 <= y <= height,
                    column@.len() == y,
                    forall|j: int| 0 <= j < y ==> !(#[trigger] column@[j]),
                decreases height - y,
            {
                column.push(false);
                y += 1;
            }
            visible.push(column);
            x += 1;
        }
        VisibilityEngine {
            visible,
            width,
            height,
            prev_origin: Coordinates { x: 0, y: 0 },
            has_computed: false,
            recompute_count: 0,
        }
    }

    /// Whether the sweep would be skipped: a sweep has run and the origin
    /// has not moved since.
    pub open spec fn cache_hit(self, origin: Coordinates) -> bool {
        &&& self.has_computed
        &&& self.prev_origin.x == origin.x
        &&& self.prev_origin.y == origin.y
    }

    /// Recompute the visible mask from `origin`, but only when the origin
    /// has moved since the last sweep (otherwise nothing at all changes, the
    /// counter included). Every cell found visible has its tile's `explored`
    /// latch set; no tile's explored latch is ever cleared, and no other
    /// part of any tile changes.
    pub fn refresh(&mut self, grid: &mut TileGrid, origin: Coordinates, radius: i32)
        requires
            old(self).wf(),
            old(grid).wf(),
            old(self).width == old(grid).width,
            old(self).height == old(grid).height,
            old(grid).in_bounds(origin.x as int, origin.y as int),
            0 <= radius <= 10_000,
        ensures
            final(self).wf(),
            final(grid).wf(),
            final(self).width == old(self).width,
            final(self).height == old(self).height,
            final(grid).width == old(grid).width,
            final(grid).height == old(grid).height,
            old(self).cache_hit(origin) ==> *final(self) == *old(self) && *final(grid) == *old(
                grid,
            ),
            !old(self).cache_hit(origin) ==> {
                &&& final(self).has_computed
                &&& final(self).prev_origin == origin
                &&& final(self).recompute_count == if old(self).recompute_count < u64::MAX {
                    old(self).recompute_count + 1
                } else {
                    u64::MAX as int
                }
                &&& forall|x: int, y: int|
                    old(grid).in_bounds(x, y) ==> #[trigger] final(self).visible_at(x, y)
                        == spec_visible(*old(grid), origin, radius as int, x, y)
                &&& forall|x: int, y: int|
                    old(grid).in_bounds(x, y) ==> #[trigger] final(grid).tile_at(x, y) == (Tile {
                        explored: old(grid).tile_at(x, y).explored || spec_visible(
                            *old(grid),
                            origin,
                            radius as int,
                            x,
                            y,
                        ),
                        ..old(grid).tile_at(x, y)
                    })
            },
            forall|x: int, y: int|
                old(grid).in_bounds(x, y) && old(grid).tile_at(x, y).explored
                    ==> (#[trigger] final(grid).tile_at(x, y)).explored,
            forall|x: int, y: int|
                old(grid).in_bounds(x, y) ==> (#[trigger] final(grid).tile_at(x, y)).blocked
                    == old(grid).tile_at(x, y).blocked && final(grid).tile_at(x, y).block_sight
                    == old(grid).tile_at(x, y).block_sight,
    {
        if self.has_computed && self.prev_origin.x == origin.x && self.prev_origin.y == origin.y {
            return ;
        }

        let ghost grid0 = *grid;

        let mut x: i32 = 0;
        while x < self.width
            invariant
                self.wf(),
                grid.wf(),
                self.width == grid.width,
                self.height == grid.height,
                *grid == grid0,
                grid.in_bounds(origin.x as int, origin.y as int),
                0 <= radius <= 10_000,
                0 <= x <= self.width,
                self.prev_origin == old(self).prev_origin,
                self.has_computed == old(self).has_computed,
                self.recompute_count == old(self).recompute_count,
                forall|xi: int, yi: int|
                    grid.in_bounds(xi, yi) && xi < x ==> #[trigger] self.visible_at(xi, yi)
                        == spec_visible(grid0, origin, radius as int, xi, yi),
            decreases self.width - x,
        {
            let mut y: i32 = 0;
            while y < self.height
                invariant
                    self.wf(),
                    grid.wf(),
                    self.width == grid.width,
                    self.height == grid.height,
                    *grid == grid0,
                    grid.in_bounds(origin.x as int, origin.y as int),
                    0 <= radius <= 10_000,
                    0 <= x < self.width,
                    0 <= y <= self.height,
                    self.prev_origin == old(self).prev_origin,
                    self.has_computed == old(self).has_computed,
                    self.recompute_count == old(self).recompute_count,
                    forall|xi: int, yi: int|
                        grid.in_bounds(xi, yi) && (xi < x || (xi == x && yi < y))
                            ==> #[trigger] self.visible_at(xi, yi) == spec_visible(
                            grid0,
                            origin,
                            radius as int,
                            xi,
                            yi,
                        ),
                decreases self.height - y,
            {
                let v = visible_cell(grid, &origin, radius, x, y);
                let ghost pre_self = *self;
                self.visible[x as usize][y as usize] = v;
                proof {
                    assert forall|xi: int, yi: int|
                        grid.in_bounds(xi, yi) && (xi < x || (xi == x && yi < y + 1))
                            implies #[trigger] self.visible_at(xi, yi) == spec_visible(
                        grid0,
                        origin,
                        radius as int,
                        xi,
                        yi,
                    ) by {
                        if xi == x as int && yi == y as int {
                            assert(self.visible_at(xi, yi) == v);
                        } else {
                            assert(pre_self.visible_at(xi, yi) == spec_visible(
                                grid0,
                                origin,
                                radius as int,
                                xi,
                                yi,
                            ));
                            if xi == x as int {
                                assert(self.visible@[xi]@[yi] == pre_self.visible@[xi]@[yi]);
                            } else {
                                assert(self.visible@[xi] == pre_self.visible@[xi]);
                            }
                        }
                    }
                }
                y += 1;
            }
            x += 1;
        }

        let mut x: i32 = 0;
        while x < self.width
            invariant
                self.wf(),
                grid.wf(),
                self.width == grid.width,
                self.height == grid.height,
                grid.width == grid0.width,
                grid.height == grid0.height,
                0 <= x <= self.width,
                self.prev_origin == old(self).prev_origin,
                self.has_computed == old(self).has_computed,
                self.recompute_count == old(self).recompute_count,
                forall|xi: int, yi: int|
                    grid.in_bounds(xi, yi) ==> #[trigger] self.visible_at(xi, yi) == spec_visible(
                        grid0,
                        origin,
                        radius as int,
                        xi,
                        yi,
                    ),
                forall|xi: int, yi: int|
                    grid.in_bounds(xi, yi) ==> #[trigger] grid.tile_at(xi, yi) == (Tile {
                        explored: grid0.tile_at(xi, yi).explored || (xi < x && spec_visible(
                            grid0,
                            origin,
                            radius as int,
                            xi,
                            yi,
                        )),
                        ..grid0.tile_at(xi, yi)
                    }),
            decreases self.width - x,
        {
            let mut y: i32 = 0;
            while y < self.height
                invariant
                    self.wf(),
                    grid.wf(),
                    self.width == grid.width,
                    self.height == grid.height,
                    grid.width == grid0.width,
                    grid.height == grid0.height,
                    0 <= x < self.width,
                    0 <= y <= self.height,
                    self.prev_origin == old(self).prev_origin,
                    self.has_computed == old(self).has_computed,
                    self.recompute_count == old(self).recompute_count,
                    forall|xi: int, yi: int|
                        grid.in_bounds(xi, yi) ==> #[trigger] self.visible_at(xi, yi)
                            == spec_visible(grid0, origin, radius as int, xi, yi),
                    forall|xi: int, yi: int|
                        grid.in_bounds(xi, yi) ==> #[trigger] grid.tile_at(xi, yi) == (Tile {
                            explored: grid0.tile_at(xi, yi).explored || ((xi < x || (xi == x && yi
                                < y)) && spec_visible(grid0, origin, radius as int, xi, yi)),
                            ..grid0.tile_at(xi, yi)
                        }),
                decreases self.height - y,
            {
                let ghost pre_grid = *grid;
                let v = self.visible[x as usize][y as usize];
                proof {
                    assert(v == self.visible_at(x as int, y as int));
                    assert(self.visible_at(x as int, y as int) == spec_visible(
                        grid0,
                        origin,
                        radius as int,
                        x as int,
                        y as int,
                    ));
                }
                if v {
                    grid.mark_explored(x, y);
                }
                proof {
                    assert forall|xi: int, yi: int| grid.in_bounds(xi, yi)
                        implies #[trigger] grid.tile_at(xi, yi) == (Tile {
                        explored: grid0.tile_at(xi, yi).explored || ((xi < x || (xi == x && yi < y
                            + 1)) && spec_visible(grid0, origin, radius as int, xi, yi)),
                        ..grid0.tile_at(xi, yi)
                    }) by {
                        assert(pre_grid.tile_at(xi, yi) == (Tile {
                            explored: grid0.tile_at(xi, yi).explored || ((xi < x || (xi == x && yi
                                < y)) && spec_visible(grid0, origin, radius as int, xi, yi)),
                            ..grid0.tile_at(xi, yi)
                        }));
                        if !(xi == x as int && yi == y as int) {
                            assert(grid.tile_at(xi, yi) == pre_grid.tile_at(xi, yi));
                        }
                    }
                }
                y += 1;
            }
            x += 1;
        }

        let ghost pre_final = *self;
        self.prev_origin = origin;
        self.has_computed = true;
        if self.recompute_count < u64::MAX {
            self.recompute_count = self.recompute_count + 1;
        }
        proof {
            assert forall|x: int, y: int| old(grid).in_bounds(x, y)
                implies #[trigger] self.visible_at(x, y) == spec_visible(
                grid0,
                origin,
                radius as int,
                x,
                y,
            ) by {
                assert(pre_final.visible_at(x, y) == spec_visible(
                    grid0,
                    origin,
                    radius as int,
                    x,
                    y,
                ));
            }
        }
    }

    /// Whether the cell at `(x, y)` is in the current visible mask (false
    /// for out-of-range addresses).
    pub fn is_in_fov(&self, x: i32, y: i32) -> (r: bool)
        requires
            self.wf(),
        ensures
            r == (self.in_bounds(x as int, y as int) && self.visible_at(x as int, y as int)),
    {
        if x < 0 || x >= self.width || y < 0 || y >= self.height {
            false
        } else {
            self.visible[x as usize][y as usize]
        }
    }

    pub fn get_recompute_count(&self) -> (c: u64)
        ensures
            c == self.recompute_count,
    {
        self.recompute_count
    }
}

} // verus!
