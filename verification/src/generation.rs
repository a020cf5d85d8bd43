//! The procedural generator: up to a fixed quota of random non-overlapping
//! rooms, an elbow tunnel from each new room's center to the (approximately)
//! nearest earlier room's center, and a random monster roster per room.

use vstd::prelude::*;

use crate::grid::TileGrid;
use crate::num::{abs_i, max_i, min_i};
use crate::rng::RandomSource;
use crate::room::Room;
use crate::tile::Tile;
use crate::unit::{is_monster_preset_at, Coordinates, Unit};

verus! {

pub const ROOM_MAX_SIZE: i32 = 10;

pub const ROOM_MIN_SIZE: i32 = 6;

pub const MAX_ROOMS: i32 = 30;

pub const MAX_ROOM_MONSTERS: i32 = 3;

/// How many random placements one quota slot may try before generation gives
/// up and returns a partial layout. The room-overlap retry loop would
/// otherwise have no bound at all and could spin forever on a crowded grid.
pub const PLACEMENT_ATTEMPTS: u32 = 1000;

/// The cells the horizontal leg of an elbow carves: the row of the previous
/// center, from the smaller to the larger of the two center columns, the
/// larger column excluded.
pub open spec fn horizontal_leg_covers(new: Coordinates, prev: Coordinates, x: int, y: int) -> bool {
    &&& y == prev.y
    &&& min_i(new.x as int, prev.x as int) <= x < max_i(new.x as int, prev.x as int)
}

/// The cells the vertical leg through `column` carves, from the smaller to
/// the larger of the two center rows, the larger row excluded; `extended`
/// adds one cell past the larger row (the elbow fix).
pub open spec fn vertical_leg_covers(
    new: Coordinates,
    prev: Coordinates,
    column: int,
    extended: bool,
    x: int,
    y: int,
) -> bool {
    &&& x == column
    &&& min_i(new.y as int, prev.y as int) <= y < max_i(new.y as int, prev.y as int) + if extended {
        1int
    } else {
        0int
    }
}

/// Whether the two legs of a horizontal-then-vertical elbow already meet at
/// the joint, under the strict tunnel-intersection test.
pub open spec fn hv_elbow_joined(new: Coordinates, prev: Coordinates) -> bool {
    let lx = min_i(new.x as int, prev.x as int);
    let rx = max_i(new.x as int, prev.x as int);
    let by = min_i(new.y as int, prev.y as int);
    let ty = max_i(new.y as int, prev.y as int);
    &&& lx < new.x + 1
    &&& rx > new.x
    &&& prev.y + 1 > by
    &&& prev.y < ty
}

/// The full region a horizontal-then-vertical elbow carves.
pub open spec fn hv_tunnel_covers(new: Coordinates, prev: Coordinates, x: int, y: int) -> bool {
    ||| horizontal_leg_covers(new, prev, x, y)
    ||| vertical_leg_covers(new, prev, new.x as int, !hv_elbow_joined(new, prev), x, y)
}

/// The cells the horizontal leg of a vertical-then-horizontal elbow carves:
/// the row of the new center, optionally one cell past the larger column
/// (the elbow fix).
pub open spec fn horizontal_leg_ext_covers(
    new: Coordinates,
    prev: Coordinates,
    extended: bool,
    x: int,
    y: int,
) -> bool {
    &&& y == new.y
    &&& min_i(new.x as int, prev.x as int) <= x < max_i(new.x as int, prev.x as int) + if extended {
        1int
    } else {
        0int
    }
}

/// Whether the two legs of a vertical-then-horizontal elbow already meet at
/// the joint, under the strict tunnel-intersection test.
pub open spec fn vh_elbow_joined(new: Coordinates, prev: Coordinates) -> bool {
    let lx = min_i(new.x as int, prev.x as int);
    let rx = max_i(new.x as int, prev.x as int);
    let by = min_i(new.y as int, prev.y as int);
    let ty = max_i(new.y as int, prev.y as int);
    &&& lx < prev.x + 1
    &&& rx > prev.x
    &&& new.y + 1 > by
    &&& new.y < ty
}

/// The full region a vertical-then-horizontal elbow carves.
pub open spec fn vh_tunnel_covers(new: Coordinates, prev: Coordinates, x: int, y: int) -> bool {
    ||| vertical_leg_covers(new, prev, prev.x as int, false, x, y)
    ||| horizontal_leg_ext_covers(new, prev, !vh_elbow_joined(new, prev), x, y)
}

/// A coordinate pair a tunnel endpoint may use: far enough inside `i32`
/// that the one-cell extensions cannot overflow.
pub open spec fn tunnel_endpoint_ok(c: Coordinates) -> bool {
    &&& 0 <= c.x <= 0x2000_0000
    &&& 0 <= c.y <= 0x2000_0000
}

/// Carve a horizontal leg on the previous center's row, then a vertical leg
/// up or down the new center's column; if the two legs miss each other at
/// the elbow, carve one extra cell to close the joint.
pub fn h_v_tunnel(new_center: &Coordinates, prev_center: &Coordinates, grid: &mut TileGrid)
    requires
        old(grid).wf(),
        tunnel_endpoint_ok(*new_center),
        tunnel_endpoint_ok(*prev_center),
    ensures
        final(grid).wf(),
        final(grid).width == old(grid).width,
        final(grid).height == old(grid).height,
        forall|x: int, y: int|
            old(grid).in_bounds(x, y) ==> #[trigger] final(grid).tile_at(x, y)
                == if hv_tunnel_covers(*new_center, *prev_center, x, y) {
                    Tile::empty_tile()
                } else {
                    old(grid).tile_at(x, y)
                },
{
    let (bottom_y, top_y) = (prev_center.y, prev_center.y + 1);
    let (left_x, right_x) = if new_center.x < prev_center.x {
        (new_center.x, prev_center.x)
    } else {
        (prev_center.x, new_center.x)
    };

    let h_tunnel = Room::new(left_x, right_x, bottom_y, top_y);
    h_tunnel.fill(grid);

    let (left_x, right_x) = (new_center.x, new_center.x + 1);
    let (bottom_y, top_y) = if new_center.y < prev_center.y {
        (new_center.y, prev_center.y)
    } else {
        (prev_center.y, new_center.y)
    };

    let v_tunnel = Room::new(left_x, right_x, bottom_y, top_y);
    v_tunnel.fill(grid);

    if !h_tunnel.intersects_with_as_tunnels(&v_tunnel) {
        let v_tunnel = Room::new(left_x, right_x, bottom_y, top_y + 1);
        v_tunnel.fill(grid);
    }
}

/// Carve a vertical leg on the previous center's column, then a horizontal
/// leg along the new center's row; if the two legs miss each other at the
/// elbow, carve one extra cell to close the joint.
pub fn v_h_tunnel(new_center: &Coordinates, prev_center: &Coordinates, grid: &mut TileGrid)
    requires
        old(grid).wf(),
        tunnel_endpoint_ok(*new_center),
        tunnel_endpoint_ok(*prev_center),
    ensures
        final(grid).wf(),
        final(grid).width == old(grid).width,
        final(grid).height == old(grid).height,
        forall|x: int, y: int|
            old(grid).in_bounds(x, y) ==> #[trigger] final(grid).tile_at(x, y)
                == if vh_tunnel_covers(*new_center, *prev_center, x, y) {
                    Tile::empty_tile()
                } else {
                    old(grid).tile_at(x, y)
                },
{
    let (left_x, right_x) = (prev_center.x, prev_center.x + 1);
    let (bottom_y, top_y) = if new_center.y < prev_center.y {
        (new_center.y, prev_center.y)
    } else {
        (prev_center.y, new_center.y)
    };

    let v_tunnel = Room::new(left_x, right_x, bottom_y, top_y);
    v_tunnel.fill(grid);

    let (bottom_y, top_y) = (new_center.y, new_center.y + 1);
    let (left_x, right_x) = if new_center.x < prev_center.x {
        (new_center.x, prev_center.x)
    } else {
        (prev_center.x, new_center.x)
    };

    let h_tunnel = Room::new(left_x, right_x, bottom_y, top_y);
    h_tunnel.fill(grid);

    if !h_tunnel.intersects_with_as_tunnels(&v_tunnel) {
        let h_tunnel = Room::new(left_x, right_x + 1, bottom_y, top_y);
        h_tunnel.fill(grid);
    }
}

/// A horizontal-then-vertical elbow really is walkable: when every cell of
/// its carved region holds the empty tile, and the two endpoint cells are
/// themselves carved (they lie inside the rooms being connected), a carved
/// path leads from the new center to the previous one.
#[verifier::rlimit(50)]
pub proof fn lemma_hv_tunnel_walkable(grid: TileGrid, new: Coordinates, prev: Coordinates)
    requires
        grid.in_bounds(new.x as int, new.y as int),
        grid.in_bounds(prev.x as int, prev.y as int),
        grid.tile_at(new.x as int, new.y as int) == Tile::empty_tile(),
        grid.tile_at(prev.x as int, prev.y as int) == Tile::empty_tile(),
        forall|x: int, y: int|
            grid.in_bounds(x, y) && hv_tunnel_covers(new, prev, x, y) ==> #[trigger] grid.tile_at(
                x,
                y,
            ) == Tile::empty_tile(),
    ensures
        exists|path: Seq<(int, int)>|
            {
                &&& #[trigger] carved_path(grid, path)
                &&& path.len() > 0
                &&& path[0] == (new.x as int, new.y as int)
                &&& path.last() == (prev.x as int, prev.y as int)
            },
{
    let nx = new.x as int;
    let ny = new.y as int;
    let px = prev.x as int;
    let py = prev.y as int;
    let dx = px - nx;
    let dy = py - ny;
    let adx = abs_i(dx);
    let ady = abs_i(dy);

    // Walk the new center's column to the previous center's row, then that
    // row to the previous center.
    let path = Seq::new(
        (ady + adx + 1) as nat,
        |i: int|
            if i <= ady {
                (nx, if dy >= 0 {
                    ny + i
                } else {
                    ny - i
                })
            } else {
                (
                    if dx >= 0 {
                        nx + (i - ady)
                    } else {
                        nx - (i - ady)
                    },
                    py,
                )
            },
    );

    assert forall|k: int| 0 <= k < path.len() implies grid.in_bounds(
        (#[trigger] path[k]).0,
        path[k].1,
    ) && grid.tile_at(path[k].0, path[k].1) == Tile::empty_tile() by {
        if k == 0 {
            assert(path[k] == (nx, ny));
        } else if k <= ady {
            let y = if dy >= 0 {
                ny + k
            } else {
                ny - k
            };
            assert(path[k] == (nx, y));
            assert(grid.in_bounds(nx, y));
            if dy >= 0 && y == py {
                // The top of the vertical leg: either the legs meet at the
                // elbow (the horizontal leg passes through this column) or
                // the one-cell extension covers it.
                if hv_elbow_joined(new, prev) {
                    assert(horizontal_leg_covers(new, prev, nx, y));
                } else {
                    assert(vertical_leg_covers(new, prev, nx, true, nx, y));
                }
            } else {
                assert(vertical_leg_covers(
                    new,
                    prev,
                    nx,
                    !hv_elbow_joined(new, prev),
                    nx,
                    y,
                ));
            }
            assert(hv_tunnel_covers(new, prev, nx, y));
        } else if k < ady + adx {
            let x = if dx >= 0 {
                nx + (k - ady)
            } else {
                nx - (k - ady)
            };
            assert(path[k] == (x, py));
            assert(grid.in_bounds(x, py));
            assert(horizontal_leg_covers(new, prev, x, py));
            assert(hv_tunnel_covers(new, prev, x, py));
        } else {
            assert(path[k] == (px, py));
        }
    }

    assert forall|k: int| 0 <= k < path.len() - 1 implies abs_i(
        path[k + 1].0 - (#[trigger] path[k]).0,
    ) + abs_i(path[k + 1].1 - path[k].1) == 1 by {
        assert(path[k].0 == if k <= ady { nx } else if dx >= 0 { nx + (k - ady) } else {
            nx - (k - ady)
        });
    }

    assert(carved_path(grid, path));
    assert(path[0] == (nx, ny));
    assert(path.last() == (px, py));
}

/// A carved path joins the two rooms' centers.
pub open spec fn centers_linked(grid: TileGrid, a: Room, b: Room) -> bool {
    exists|path: Seq<(int, int)>|
        {
            &&& #[trigger] carved_path(grid, path)
            &&& path.len() > 0
            &&& path[0] == (a.spec_center().x as int, a.spec_center().y as int)
            &&& path.last() == (b.spec_center().x as int, b.spec_center().y as int)
        }
}

/// The room at index `k` is joined to some earlier room's center by a
/// carved path.
pub open spec fn linked_to_earlier(grid: TileGrid, rooms: Seq<Room>, k: int) -> bool {
    exists|j: int| 0 <= j < k && #[trigger] centers_linked(grid, rooms[k], rooms[j])
}

/// Every room after the first is joined to some earlier room's center by a
/// carved path.
pub open spec fn rooms_connected(grid: TileGrid, rooms: Seq<Room>) -> bool {
    forall|k: int| 1 <= k < rooms.len() ==> #[trigger] linked_to_earlier(grid, rooms, k)
}

/// Carving only ever opens cells, so a carved path survives any amount of
/// further carving.
pub proof fn lemma_centers_linked_monotone(g1: TileGrid, g2: TileGrid, a: Room, b: Room)
    requires
        g1.width == g2.width,
        g1.height == g2.height,
        forall|x: int, y: int|
            g1.in_bounds(x, y) ==> #[trigger] g2.tile_at(x, y) == g1.tile_at(x, y) || g2.tile_at(
                x,
                y,
            ) == Tile::empty_tile(),
        centers_linked(g1, a, b),
    ensures
        centers_linked(g2, a, b),
{
    let path = choose|path: Seq<(int, int)>|
        {
            &&& #[trigger] carved_path(g1, path)
            &&& path.len() > 0
            &&& path[0] == (a.spec_center().x as int, a.spec_center().y as int)
            &&& path.last() == (b.spec_center().x as int, b.spec_center().y as int)
        };
    assert forall|k: int| 0 <= k < path.len() implies g2.in_bounds(
        (#[trigger] path[k]).0,
        path[k].1,
    ) && g2.tile_at(path[k].0, path[k].1) == Tile::empty_tile() by {
        assert(g1.in_bounds(path[k].0, path[k].1));
        assert(g1.tile_at(path[k].0, path[k].1) == Tile::empty_tile());
    }
    assert(carved_path(g2, path));
}

/// A vertical-then-horizontal elbow really is walkable, in the same sense
/// as its mirror image.
#[verifier::rlimit(50)]
pub proof fn lemma_vh_tunnel_walkable(grid: TileGrid, new: Coordinates, prev: Coordinates)
    requires
        grid.in_bounds(new.x as int, new.y as int),
        grid.in_bounds(prev.x as int, prev.y as int),
        grid.tile_at(new.x as int, new.y as int) == Tile::empty_tile(),
        grid.tile_at(prev.x as int, prev.y as int) == Tile::empty_tile(),
        forall|x: int, y: int|
            grid.in_bounds(x, y) && vh_tunnel_covers(new, prev, x, y) ==> #[trigger] grid.tile_at(
                x,
                y,
            ) == Tile::empty_tile(),
    ensures
        exists|path: Seq<(int, int)>|
            {
                &&& #[trigger] carved_path(grid, path)
                &&& path.len() > 0
                &&& path[0] == (new.x as int, new.y as int)
                &&& path.last() == (prev.x as int, prev.y as int)
            },
{
    let nx = new.x as int;
    let ny = new.y as int;
    let px = prev.x as int;
    let py = prev.y as int;
    let dx = px - nx;
    let dy = py - ny;
    let adx = abs_i(dx);
    let ady = abs_i(dy);

    // Walk the new center's row to the previous center's column, then that
    // column to the previous center.
    let path = Seq::new(
        (adx + ady + 1) as nat,
        |i: int|
            if i <= adx {
                (
                    if dx >= 0 {
                        nx + i
                    } else {
                        nx - i
                    },
                    ny,
                )
            } else {
                (px, if dy >= 0 {
                    ny + (i - adx)
                } else {
                    ny - (i - adx)
                })
            },
    );

    assert forall|k: int| 0 <= k < path.len() implies grid.in_bounds(
        (#[trigger] path[k]).0,
        path[k].1,
    ) && grid.tile_at(path[k].0, path[k].1) == Tile::empty_tile() by {
        if k == 0 {
            assert(path[k] == (nx, ny));
        } else if k <= adx {
            let x = if dx >= 0 {
                nx + k
            } else {
                nx - k
            };
            assert(path[k] == (x, ny));
            assert(grid.in_bounds(x, ny));
            if x == px && ny == py {
                // A straight tunnel: this is the previous center itself.
            } else {
                if dx >= 0 && x == px {
                    // The far end of the horizontal leg: the legs cannot
                    // have met at the elbow here, so the one-cell extension
                    // covers it.
                    assert(!vh_elbow_joined(new, prev));
                    assert(horizontal_leg_ext_covers(new, prev, true, x, ny));
                } else {
                    assert(horizontal_leg_ext_covers(
                        new,
                        prev,
                        !vh_elbow_joined(new, prev),
                        x,
                        ny,
                    ));
                }
                assert(vh_tunnel_covers(new, prev, x, ny));
            }
        } else if k < adx + ady {
            let y = if dy >= 0 {
                ny + (k - adx)
            } else {
                ny - (k - adx)
            };
            assert(path[k] == (px, y));
            assert(grid.in_bounds(px, y));
            assert(vertical_leg_covers(new, prev, px, false, px, y));
            assert(vh_tunnel_covers(new, prev, px, y));
        } else {
            assert(path[k] == (px, py));
        }
    }

    assert forall|k: int| 0 <= k < path.len() - 1 implies abs_i(
        path[k + 1].0 - (#[trigger] path[k]).0,
    ) + abs_i(path[k + 1].1 - path[k].1) == 1 by {
        assert(path[k].1 == if k <= adx { ny } else if dy >= 0 { ny + (k - adx) } else {
            ny - (k - adx)
        });
    }

    assert(carved_path(grid, path));
    assert(path[0] == (nx, ny));
    assert(path.last() == (px, py));
}

/// A room whose corners sit inside `[0, 0x2000_0000]`, so gap arithmetic
/// stays inside `i32`.
pub open spec fn room_coords_ok(r: Room) -> bool {
    &&& 0 <= r.left_x <= 0x2000_0000
    &&& 0 <= r.right_x <= 0x2000_0000
    &&& 0 <= r.bottom_y <= 0x2000_0000
    &&& 0 <= r.top_y <= 0x2000_0000
}

/// The per-axis gaps the nearest-room heuristic compares: the smaller (in
/// signed value) of the two ways to subtract the rooms' horizontal bounds,
/// and likewise vertically, each taken by absolute value.
pub open spec fn spec_distance_diff(room1: Room, room2: Room) -> (int, int) {
    let w = min_i(room1.right_x - room2.left_x, room1.left_x - room2.right_x);
    let h = min_i(room1.top_y - room2.bottom_y, room1.bottom_y - room2.top_y);
    (abs_i(h), abs_i(w))
}

fn distance_diff(room1: &Room, room2: &Room) -> (r: (i32, i32))
    requires
        room_coords_ok(*room1),
        room_coords_ok(*room2),
    ensures
        r.0 == spec_distance_diff(*room1, *room2).0,
        r.1 == spec_distance_diff(*room1, *room2).1,
{
    let rlx = room1.right_x - room2.left_x;
    let lrx = room1.left_x - room2.right_x;
    let tby = room1.top_y - room2.bottom_y;
    let bty = room1.bottom_y - room2.top_y;

    let w = if rlx < lrx { rlx } else { lrx };
    let h = if tby < bty { tby } else { bty };

    let ha = if h < 0 { -h } else { h };
    let wa = if w < 0 { -w } else { w };

    (ha, wa)
}

/// The index the nearest-room heuristic picks: scanning forward, a room is
/// preferred whenever it improves either gap over the gaps to the first
/// room in the list. This is the approximate proximity rule the generator
/// uses, kept as a documented, reproducible heuristic; it is not a true
/// nearest-neighbor search.
pub open spec fn spec_nearest_room(rooms: Seq<Room>, target: Room, upto: int) -> int
    decreases upto,
{
    if upto <= 1 {
        0
    } else {
        let prev = spec_nearest_room(rooms, target, upto - 1);
        let base = spec_distance_diff(target, rooms[0]);
        let cur = spec_distance_diff(target, rooms[upto - 1]);
        if cur.0 < base.0 || cur.1 < base.1 {
            upto - 1
        } else {
            prev
        }
    }
}

fn find_nearest_room(rooms: &Vec<Room>, target_room: &Room) -> (nearest: usize)
    requires
        rooms@.len() > 0,
        room_coords_ok(*target_room),
        forall|i: int| 0 <= i < rooms@.len() ==> room_coords_ok(#[trigger] rooms@[i]),
    ensures
        0 <= nearest < rooms@.len(),
        nearest == spec_nearest_room(rooms@, *target_room, rooms@.len() as int),
{
    let mut nearest: usize = 0;
    let (h, w) = distance_diff(target_room, &rooms[0]);

    let mut i: usize = 1;
    while i < rooms.len()
        invariant
            1 <= i <= rooms@.len(),
            0 <= nearest < rooms@.len(),
            room_coords_ok(*target_room),
            forall|j: int| 0 <= j < rooms@.len() ==> room_coords_ok(#[trigger] rooms@[j]),
            h == spec_distance_diff(*target_room, rooms@[0]).0,
            w == spec_distance_diff(*target_room, rooms@[0]).1,
            nearest == spec_nearest_room(rooms@, *target_room, i as int),
        decreases rooms@.len() - i,
    {
        let (nh, nw) = distance_diff(target_room, &rooms[i]);

        if nh < h || nw < w {
            nearest = i;
        }

        i += 1;
    }

    nearest
}

/// Whether any monster in the list already stands at `(x, y)`.
fn position_taken(monsters: &Vec<Unit>, x: i32, y: i32) -> (r: bool)
    ensures
        r == exists|i: int|
            0 <= i < monsters@.len() && (#[trigger] monsters@[i]).position.x == x
                && monsters@[i].position.y == y,
{
    let mut i: usize = 0;
    while i < monsters.len()
        invariant
            0 <= i <= monsters@.len(),
            forall|j: int|
                0 <= j < i ==> !((#[trigger] monsters@[j]).position.x == x
                    && monsters@[j].position.y == y),
        decreases monsters@.len() - i,
    {
        let pos = monsters[i].get_position();
        if pos.x == x && pos.y == y {
            return true;
        }
        i += 1;
    }
    false
}

/// Roll a monster count for this room, then place that many monsters on
/// distinct cells inside it, each an orc with eighty-percent probability and
/// a troll otherwise. A draw landing on an occupied cell is retried, up to
/// the shared attempt budget; on exhaustion the room keeps the monsters
/// placed so far.
pub fn spawn_monsters<R: RandomSource>(room: &Room, room_number: u32, rng: &mut R) -> (monsters:
    Vec<Unit>)
    requires
        room.left_x < room.right_x,
        room.bottom_y < room.top_y,
    ensures
        monsters@.len() <= MAX_ROOM_MONSTERS,
        forall|i: int|
            0 <= i < monsters@.len() ==> {
                let m = #[trigger] monsters@[i];
                &&& room.covers(m.position.x as int, m.position.y as int)
                &&& m.spawn_room == room_number
                &&& is_monster_preset_at(m, room_number as int)
            },
        forall|i: int, j: int|
            0 <= i < j < monsters@.len() ==> !((#[trigger] monsters@[i]).position.x
                == (#[trigger] monsters@[j]).position.x && monsters@[i].position.y
                == monsters@[j].position.y),
{
    let mut monsters: Vec<Unit> = Vec::new();

    let count_of_monsters_in_room = rng.next_in(0, MAX_ROOM_MONSTERS + 1);
    let mut attempts: u32 = 0;

    while (monsters.len() as i32) < count_of_monsters_in_room && attempts < PLACEMENT_ATTEMPTS
        invariant
            room.left_x < room.right_x,
            room.bottom_y < room.top_y,
            0 <= count_of_monsters_in_room <= MAX_ROOM_MONSTERS,
            monsters@.len() <= count_of_monsters_in_room,
            forall|i: int|
                0 <= i < monsters@.len() ==> {
                    let m = #[trigger] monsters@[i];
                    &&& room.covers(m.position.x as int, m.position.y as int)
                    &&& m.spawn_room == room_number
                    &&& is_monster_preset_at(m, room_number as int)
                },
            forall|i: int, j: int|
                0 <= i < j < monsters@.len() ==> !((#[trigger] monsters@[i]).position.x
                    == (#[trigger] monsters@[j]).position.x && monsters@[i].position.y
                    == monsters@[j].position.y),
        decreases PLACEMENT_ATTEMPTS - attempts,
    {
        attempts += 1;

        let x = rng.next_in(room.left_x, room.right_x);
        let y = rng.next_in(room.bottom_y, room.top_y);

        let is_place_taken = position_taken(&monsters, x, y);

        if !is_place_taken {
            let new_monster = if rng.next_in(0, 100) < 80 {
                Unit::orc(x, y, room_number)
            } else {
                Unit::troll(x, y, room_number)
            };

            monsters.push(new_monster);
        }
    }

    monsters
}

/// Whether the candidate overlaps any accepted room, under the inclusive
/// room-placement test.
fn any_room_intersects(rooms: &Vec<Room>, candidate: &Room) -> (r: bool)
    ensures
        r == exists|k: int|
            0 <= k < rooms@.len() && (#[trigger] rooms@[k]).spec_intersects_as_rooms(*candidate),
{
    let mut k: usize = 0;
    while k < rooms.len()
        invariant
            0 <= k <= rooms@.len(),
            forall|j: int|
                0 <= j < k ==> !(#[trigger] rooms@[j]).spec_intersects_as_rooms(*candidate),
        decreases rooms@.len() - k,
    {
        if rooms[k].intersects_with_as_rooms(candidate) {
            return true;
        }
        k += 1;
    }
    false
}

/// A room the generator accepted on a `width` by `height` grid: its sides
/// are between the minimum and maximum sizes and it sits strictly inside a
/// one-tile border.
pub open spec fn placed_room_ok(r: Room, width: int, height: int) -> bool {
    &&& 1 <= r.left_x
    &&& r.left_x + ROOM_MIN_SIZE <= r.right_x
    &&& r.right_x <= r.left_x + ROOM_MAX_SIZE
    &&& r.right_x < width
    &&& 1 <= r.bottom_y
    &&& r.bottom_y + ROOM_MIN_SIZE <= r.top_y
    &&& r.top_y <= r.bottom_y + ROOM_MAX_SIZE
    &&& r.top_y < height
}

/// Pairwise non-overlap under the inclusive room-placement test.
pub open spec fn rooms_disjoint(rooms: Seq<Room>) -> bool {
    forall|i: int, j: int|
        0 <= i < j < rooms.len() ==> !(#[trigger] rooms[i]).spec_intersects_as_rooms(
            #[trigger] rooms[j],
        )
}

/// Every cell covered by an accepted room holds the empty tile.
pub open spec fn rooms_carved(rooms: Seq<Room>, grid: TileGrid) -> bool {
    forall|k: int, x: int, y: int|
        0 <= k < rooms.len() && #[trigger] rooms[k].covers(x, y) && grid.in_bounds(x, y)
            ==> grid.tile_at(x, y) == Tile::empty_tile()
}

/// Every cell is either the untouched wall or the freshly carved empty tile
/// (in particular, nothing is explored yet).
pub open spec fn tiles_pristine(grid: TileGrid) -> bool {
    forall|x: int, y: int|
        grid.in_bounds(x, y) ==> (#[trigger] grid.tile_at(x, y)) == Tile::empty_tile()
            || grid.tile_at(x, y) == Tile::wall_tile()
}

/// Every monster stands inside the room it spawned in (never the first
/// room), is one of the two archetype presets, and no two monsters of one
/// room share a cell.
pub open spec fn monsters_placed_ok(monsters: Seq<Unit>, rooms: Seq<Room>) -> bool {
    &&& forall|i: int|
        0 <= i < monsters.len() ==> {
            let m = #[trigger] monsters[i];
            &&& 1 <= m.spawn_room < rooms.len()
            &&& rooms[m.spawn_room as int].covers(m.position.x as int, m.position.y as int)
            &&& is_monster_preset_at(m, m.spawn_room as int)
        }
    &&& forall|i: int, j: int|
        0 <= i < j < monsters.len() && (#[trigger] monsters[i]).spawn_room == (
        #[trigger] monsters[j]).spawn_room ==> !(monsters[i].position.x
            == monsters[j].position.x && monsters[i].position.y == monsters[j].position.y)
}

/// A carved path: consecutive cells four-way adjacent, every cell inside
/// the grid and carved down to the empty tile.
pub open spec fn carved_path(grid: TileGrid, path: Seq<(int, int)>) -> bool {
    &&& forall|k: int|
        0 <= k < path.len() ==> grid.in_bounds((#[trigger] path[k]).0, path[k].1) && grid.tile_at(
            path[k].0,
            path[k].1,
        ) == Tile::empty_tile()
    &&& forall|k: int|
        0 <= k < path.len() - 1 ==> abs_i(path[k + 1].0 - (#[trigger] path[k]).0) + abs_i(
            path[k + 1].1 - path[k].1,
        ) == 1
}

/// Every tile reachable from the spawn room by a carved path is not
/// blocked: walking carved cells only, from anywhere in the spawn room, can
/// never end on a blocking tile.
pub proof fn lemma_reachable_is_unblocked(grid: TileGrid, spawn_room: Room, path: Seq<(int, int)>)
    requires
        path.len() > 0,
        spawn_room.covers(path[0].0, path[0].1),
        carved_path(grid, path),
    ensures
        forall|k: int|
            0 <= k < path.len() ==> !grid.tile_at((#[trigger] path[k]).0, path[k].1).blocked,
        !grid.tile_at(path.last().0, path.last().1).blocked,
{
}

/// Carving only opens cells, so every link of a connected layout survives.
proof fn lemma_links_survive_carving(g1: TileGrid, g2: TileGrid, rooms: Seq<Room>)
    requires
        g1.width == g2.width,
        g1.height == g2.height,
        forall|x: int, y: int|
            g1.in_bounds(x, y) ==> #[trigger] g2.tile_at(x, y) == g1.tile_at(x, y) || g2.tile_at(
                x,
                y,
            ) == Tile::empty_tile(),
        rooms_connected(g1, rooms),
    ensures
        rooms_connected(g2, rooms),
{
    assert forall|k: int| 1 <= k < rooms.len() implies #[trigger] linked_to_earlier(
        g2,
        rooms,
        k,
    ) by {
        assert(linked_to_earlier(g1, rooms, k));
        let j = choose|j: int| 0 <= j < k && #[trigger] centers_linked(g1, rooms[k], rooms[j]);
        lemma_centers_linked_monotone(g1, g2, rooms[k], rooms[j]);
        assert(centers_linked(g2, rooms[k], rooms[j]));
    }
}

/// Appending a room that is linked to one of the existing rooms keeps the
/// layout connected.
proof fn lemma_push_linked_room(grid: TileGrid, rooms: Seq<Room>, new_room: Room, nearest: int)
    requires
        rooms_connected(grid, rooms),
        rooms.len() > 0 ==> 0 <= nearest < rooms.len() && centers_linked(
            grid,
            new_room,
            rooms[nearest],
        ),
    ensures
        rooms_connected(grid, rooms.push(new_room)),
{
    let rooms2 = rooms.push(new_room);
    assert forall|k: int| 1 <= k < rooms2.len() implies #[trigger] linked_to_earlier(
        grid,
        rooms2,
        k,
    ) by {
        if k == rooms2.len() - 1 {
            assert(rooms2[k] == new_room);
            assert(rooms2[nearest] == rooms[nearest]);
            assert(centers_linked(grid, rooms2[k], rooms2[nearest]));
            assert(0 <= nearest < k);
        } else {
            assert(linked_to_earlier(grid, rooms, k));
            let j = choose|j: int| 0 <= j < k && #[trigger] centers_linked(grid, rooms[k], rooms[j]);
            assert(rooms2[k] == rooms[k]);
            assert(rooms2[j] == rooms[j]);
            assert(centers_linked(grid, rooms2[k], rooms2[j]));
        }
    }
}

/// One generator step keeps the layout connected: carving a tunnel (from
/// the new room's center to an earlier room's center) and then the new room
/// preserves every existing link and adds one for the new room. `g_iter` is
/// the grid before the step, `g_mid` after the tunnel, `g_fin` after the
/// room is carved.
#[verifier::rlimit(100)]
#[verifier::spinoff_prover]
proof fn lemma_generation_connect_step(
    g_iter: TileGrid,
    g_mid: TileGrid,
    g_fin: TileGrid,
    pre_rooms: Seq<Room>,
    new_room: Room,
    nearest: int,
    used_vh: bool,
    width: int,
    height: int,
)
    requires
        g_iter.width == width,
        g_iter.height == height,
        g_mid.width == width,
        g_mid.height == height,
        g_fin.width == width,
        g_fin.height == height,
        width <= 0x2000_0000,
        height <= 0x2000_0000,
        placed_room_ok(new_room, width, height),
        forall|k: int|
            0 <= k < pre_rooms.len() ==> placed_room_ok(#[trigger] pre_rooms[k], width, height),
        rooms_carved(pre_rooms, g_iter),
        rooms_connected(g_iter, pre_rooms),
        forall|x: int, y: int|
            g_iter.in_bounds(x, y) ==> #[trigger] g_mid.tile_at(x, y) == g_iter.tile_at(x, y)
                || g_mid.tile_at(x, y) == Tile::empty_tile(),
        forall|x: int, y: int|
            g_iter.in_bounds(x, y) ==> #[trigger] g_fin.tile_at(x, y) == if new_room.covers(
                x,
                y,
            ) {
                Tile::empty_tile()
            } else {
                g_mid.tile_at(x, y)
            },
        pre_rooms.len() > 0 ==> 0 <= nearest < pre_rooms.len(),
        pre_rooms.len() > 0 && used_vh ==> forall|x: int, y: int|
            g_mid.in_bounds(x, y) && vh_tunnel_covers(
                new_room.spec_center(),
                pre_rooms[nearest].spec_center(),
                x,
                y,
            ) ==> #[trigger] g_mid.tile_at(x, y) == Tile::empty_tile(),
        pre_rooms.len() > 0 && !used_vh ==> forall|x: int, y: int|
            g_mid.in_bounds(x, y) && hv_tunnel_covers(
                new_room.spec_center(),
                pre_rooms[nearest].spec_center(),
                x,
                y,
            ) ==> #[trigger] g_mid.tile_at(x, y) == Tile::empty_tile(),
    ensures
        rooms_connected(g_fin, pre_rooms.push(new_room)),
{
    assert forall|x: int, y: int| g_iter.in_bounds(x, y) implies #[trigger] g_fin.tile_at(x, y)
        == g_iter.tile_at(x, y) || g_fin.tile_at(x, y) == Tile::empty_tile() by {}

    lemma_links_survive_carving(g_iter, g_fin, pre_rooms);

    if pre_rooms.len() > 0 {
        let nc = new_room.spec_center();
        let pc = pre_rooms[nearest].spec_center();
        new_room.lemma_center_in_room();
        pre_rooms[nearest].lemma_center_in_room();
        assert(g_fin.tile_at(nc.x as int, nc.y as int) == Tile::empty_tile());
        assert(g_iter.tile_at(pc.x as int, pc.y as int) == Tile::empty_tile());
        assert(g_fin.tile_at(pc.x as int, pc.y as int) == Tile::empty_tile());
        if used_vh {
            assert forall|x: int, y: int|
                g_fin.in_bounds(x, y) && vh_tunnel_covers(nc, pc, x, y)
                    implies #[trigger] g_fin.tile_at(x, y) == Tile::empty_tile() by {
                assert(g_mid.tile_at(x, y) == Tile::empty_tile());
            }
            lemma_vh_tunnel_walkable(g_fin, nc, pc);
        } else {
            assert forall|x: int, y: int|
                g_fin.in_bounds(x, y) && hv_tunnel_covers(nc, pc, x, y)
                    implies #[trigger] g_fin.tile_at(x, y) == Tile::empty_tile() by {
                assert(g_mid.tile_at(x, y) == Tile::empty_tile());
            }
            lemma_hv_tunnel_walkable(g_fin, nc, pc);
        }
        assert(centers_linked(g_fin, new_room, pre_rooms[nearest]));
    }

    lemma_push_linked_room(g_fin, pre_rooms, new_room, nearest);
}

/// What one generator run produces: the carved grid, the accepted rooms in
/// acceptance order, the monster roster in spawn order, and whether the full
/// room quota was reached before the attempt budget ran out.
pub struct GeneratedDungeon {
    pub grid: TileGrid,
    pub rooms: Vec<Room>,
    pub monsters: Vec<Unit>,
    pub complete: bool,
}

/// Run the generator: repeat up to the room quota, each slot sampling room
/// sizes and an origin inside the border, rejecting candidates that overlap
/// an accepted room (rejections cost attempts from the slot's budget, not
/// quota). Every accepted room after the first is first connected to the
/// approximately nearest earlier room by an elbow tunnel, in a random one of
/// the two leg orders, and then populated with monsters; the first room gets
/// neither. When a slot's attempt budget runs out, generation stops and
/// returns the partial layout with `complete == false` (the quota is met on
/// every run that never exhausts a budget).
#[verifier::rlimit(100)]
pub fn generate_rooms<R: RandomSource>(width: i32, height: i32, rng: &mut R) -> (d:
    GeneratedDungeon)
    requires
        13 <= width <= 0x2000_0000,
        13 <= height <= 0x2000_0000,
    ensures
        d.grid.wf(),
        d.grid.width == width,
        d.grid.height == height,
        1 <= d.rooms@.len() <= MAX_ROOMS,
        d.complete <==> d.rooms@.len() == MAX_ROOMS,
        forall|k: int|
            0 <= k < d.rooms@.len() ==> placed_room_ok(#[trigger] d.rooms@[k], width as int,
                height as int),
        rooms_disjoint(d.rooms@),
        rooms_carved(d.rooms@, d.grid),
        tiles_pristine(d.grid),
        rooms_connected(d.grid, d.rooms@),
        monsters_placed_ok(d.monsters@, d.rooms@),
        d.monsters@.len() <= (d.rooms@.len() - 1) * MAX_ROOM_MONSTERS,
{
    let mut grid = TileGrid::new(width, height);
    let mut rooms: Vec<Room> = Vec::new();
    let mut monsters: Vec<Unit> = Vec::new();
    let mut complete = true;
    let mut index: i32 = 0;

    while index < MAX_ROOMS && complete
        invariant
            13 <= width <= 0x2000_0000,
            13 <= height <= 0x2000_0000,
            grid.wf(),
            grid.width == width,
            grid.height == height,
            0 <= index <= MAX_ROOMS,
            rooms@.len() == index,
            complete || rooms@.len() >= 1,
            !complete ==> rooms@.len() < MAX_ROOMS,
            forall|k: int|
                0 <= k < rooms@.len() ==> placed_room_ok(#[trigger] rooms@[k], width as int,
                    height as int),
            rooms_disjoint(rooms@),
            rooms_carved(rooms@, grid),
            tiles_pristine(grid),
            rooms_connected(grid, rooms@),
            monsters_placed_ok(monsters@, rooms@),
            monsters@.len() <= if rooms@.len() >= 1 {
                (rooms@.len() - 1) * MAX_ROOM_MONSTERS
            } else {
                0int
            },
        decreases (if complete {
            1int
        } else {
            0int
        }), MAX_ROOMS - index,
    {
        let mut found = false;
        let mut candidate = Room::new(0, 0, 0, 0);
        let mut attempts: u32 = 0;

        while !found && attempts < PLACEMENT_ATTEMPTS
            invariant
                13 <= width <= 0x2000_0000,
                13 <= height <= 0x2000_0000,
                found ==> placed_room_ok(candidate, width as int, height as int),
                found ==> forall|k: int|
                    0 <= k < rooms@.len() ==> !(#[trigger] rooms@[k]).spec_intersects_as_rooms(
                        candidate,
                    ),
                found ==> candidate.monsters@.len() == 0,
                !found ==> rooms@.len() > 0 || attempts == 0,
            decreases PLACEMENT_ATTEMPTS - attempts,
        {
            attempts += 1;

            let w = rng.next_in(ROOM_MIN_SIZE, ROOM_MAX_SIZE + 1);
            let h = rng.next_in(ROOM_MIN_SIZE, ROOM_MAX_SIZE + 1);
            let x = rng.next_in(1, width - w - 1);
            let y = rng.next_in(1, height - h - 1);

            let new_room = Room::new(x, x + w, y, y + h);

            let intersects = any_room_intersects(&rooms, &new_room);

            if !intersects {
                candidate = new_room;
                found = true;
            }
        }

        if !found {
            complete = false;
        } else {
            let new_room = candidate;
            let ghost g_iter = grid;
            let ghost pre_rooms = rooms@;
            let ghost mut nearest_g: int = 0;
            let ghost mut used_vh: bool = false;
            let ghost mut g_tun = grid;

            if rooms.len() > 0 {
                let nearest = find_nearest_room(&rooms, &new_room);

                let new_center = new_room.get_center();
                let prev_center = rooms[nearest].get_center();

                let use_vh = rng.next_bool();
                proof {
                    nearest_g = nearest as int;
                    used_vh = use_vh;
                }

                if use_vh {
                    v_h_tunnel(&new_center, &prev_center, &mut grid);
                } else {
                    h_v_tunnel(&new_center, &prev_center, &mut grid);
                }
                proof {
                    g_tun = grid;
                }

                let mut monsters_in_room = spawn_monsters(&new_room, index as u32, rng);

                monsters.append(&mut monsters_in_room);
            }

            new_room.fill(&mut grid);

            proof {
                assert forall|x: int, y: int| g_iter.in_bounds(x, y)
                    implies #[trigger] g_tun.tile_at(x, y) == g_iter.tile_at(x, y)
                    || g_tun.tile_at(x, y) == Tile::empty_tile() by {}
                if pre_rooms.len() > 0 {
                    let nc = new_room.spec_center();
                    let pc = pre_rooms[nearest_g].spec_center();
                    if used_vh {
                        assert forall|x: int, y: int|
                            g_tun.in_bounds(x, y) && vh_tunnel_covers(nc, pc, x, y)
                                implies #[trigger] g_tun.tile_at(x, y) == Tile::empty_tile() by {}
                    } else {
                        assert forall|x: int, y: int|
                            g_tun.in_bounds(x, y) && hv_tunnel_covers(nc, pc, x, y)
                                implies #[trigger] g_tun.tile_at(x, y) == Tile::empty_tile() by {}
                    }
                }
                lemma_generation_connect_step(
                    g_iter,
                    g_tun,
                    grid,
                    pre_rooms,
                    new_room,
                    nearest_g,
                    used_vh,
                    width as int,
                    height as int,
                );
            }

            rooms.push(new_room);

            proof {
                assert(rooms@ =~= pre_rooms.push(new_room));
                assert(rooms_connected(grid, rooms@));
            }

            index += 1;
        }
    }

    GeneratedDungeon { grid, rooms, monsters, complete }
}

} // verus!
