//! The dungeon itself: the tile grid, the room list, the monster roster in
//! spawn order, the player, and the embedded visibility engine. It exposes
//! movement/attack classification and turn resolution.

use vstd::prelude::*;

use crate::generation::{
    generate_rooms, monsters_placed_ok, placed_room_ok, rooms_carved, rooms_connected,
    rooms_disjoint, tiles_pristine, MAX_ROOMS, MAX_ROOM_MONSTERS, ROOM_MAX_SIZE, ROOM_MIN_SIZE,
};
use crate::grid::TileGrid;
use crate::rng::{RandomSource, ThreadRandom};
use crate::room::Room;
use crate::tile::Tile;
use crate::unit::{
    combat_bounds, dist_sq, is_player_preset, spec_attacked, step_component, Coordinates, Unit,
    UnitActions, UserActions, AI,
};
use crate::visibility::{spec_visible, VisibilityEngine};

verus! {

/// The field-of-view radius around the player.
pub const TORCH_RADIUS: i32 = 10;

/// How a tile is presented, from its visibility, explored latch, and
/// blocked flag. Unexplored tiles are not drawn at all.
#[derive(Clone, Copy, Debug, PartialEq, Eq, Structural)]
pub enum TilePresentation {
    Unseen,
    RememberedWall,
    RememberedFloor,
    LitWall,
    LitFloor,
}

pub open spec fn spec_tile_presentation(visible: bool, explored: bool, blocked: bool)
    -> TilePresentation {
    if !explored {
        TilePresentation::Unseen
    } else {
        match (visible, blocked) {
            (false, true) => TilePresentation::RememberedWall,
            (false, false) => TilePresentation::RememberedFloor,
            (true, true) => TilePresentation::LitWall,
            (true, false) => TilePresentation::LitFloor,
        }
    }
}

/// The presentation state of a tile, for the drawing collaborator.
pub fn tile_presentation(visible: bool, explored: bool, blocked: bool) -> (p: TilePresentation)
    ensures
        p == spec_tile_presentation(visible, explored, blocked),
{
    if !explored {
        TilePresentation::Unseen
    } else {
        match (visible, blocked) {
            (false, true) => TilePresentation::RememberedWall,
            (false, false) => TilePresentation::RememberedFloor,
            (true, true) => TilePresentation::LitWall,
            (true, false) => TilePresentation::LitFloor,
        }
    }
}

/// Whether a point-blocking unit occupies `(x, y)` (a dead unit never
/// blocks: death clears the flag permanently).
pub open spec fn spec_blocks_at(m: Unit, x: int, y: int) -> bool {
    &&& m.blocks_point
    &&& m.position.x == x
    &&& m.position.y == y
}

/// The index of the first monster blocking `(x, y)` at or after `i`, or the
/// roster length when none does.
pub open spec fn first_blocking_from(monsters: Seq<Unit>, x: int, y: int, i: int) -> int
    decreases monsters.len() - i,
{
    if i < 0 || i >= monsters.len() {
        monsters.len() as int
    } else if spec_blocks_at(monsters[i], x, y) {
        i
    } else {
        first_blocking_from(monsters, x, y, i + 1)
    }
}

/// How a target cell classifies: AFK outside the grid or on a blocked tile,
/// Attack when a point-blocking monster stands there, Move otherwise.
pub open spec fn spec_classify(grid: TileGrid, monsters: Seq<Unit>, x: int, y: int)
    -> UnitActions {
    if !grid.in_bounds(x, y) {
        UnitActions::AFK
    } else if grid.tile_at(x, y).blocked {
        UnitActions::AFK
    } else if exists|i: int| 0 <= i < monsters.len() && spec_blocks_at(#[trigger] monsters[i], x, y) {
        UnitActions::Attack
    } else {
        UnitActions::Move
    }
}

/// A unit the engine can run: stats inside combat bounds, standing inside
/// the grid.
pub open spec fn unit_fits(u: Unit, grid: TileGrid) -> bool {
    &&& combat_bounds(u)
    &&& grid.in_bounds(u.position.x as int, u.position.y as int)
}

fn unit_fits_check(u: &Unit, grid: &TileGrid) -> (r: bool)
    ensures
        r == unit_fits(*u, *grid),
{
    0 <= u.stats.max_hp && u.stats.max_hp <= 1000 && 0 <= u.stats.defense && u.stats.defense
        <= 1000 && 0 <= u.stats.damage && u.stats.damage <= 1000 && u.stats.current_hp
        <= u.stats.max_hp && u.stats.current_hp >= -200_000 && (!u.alive || u.stats.current_hp
        >= 1) && (!u.blocks_point || u.alive) && 0 <= u.position.x && u.position.x < grid.width
        && 0 <= u.position.y && u.position.y < grid.height
}

/// Parts that assemble into a well-formed dungeon.
pub open spec fn parts_valid(
    grid: TileGrid,
    rooms: Seq<Room>,
    monsters: Seq<Unit>,
    player: Unit,
) -> bool {
    &&& grid.wf()
    &&& 1 <= rooms.len() <= MAX_ROOMS
    &&& forall|k: int|
        0 <= k < rooms.len() ==> placed_room_ok(
            #[trigger] rooms[k],
            grid.width as int,
            grid.height as int,
        )
    &&& monsters.len() <= (MAX_ROOMS - 1) * MAX_ROOM_MONSTERS
    &&& forall|i: int|
        0 <= i < monsters.len() ==> unit_fits(#[trigger] monsters[i], grid) && monsters[i].ai
            == AI::Basic
    &&& unit_fits(player, grid)
    &&& player.ai == AI::Player
}

/// A cell outside `[0, width) x [0, height)` always classifies as AFK,
/// whatever the tiles or the roster hold.
pub proof fn lemma_out_of_bounds_is_afk(grid: TileGrid, monsters: Seq<Unit>, x: int, y: int)
    requires
        !grid.in_bounds(x, y),
    ensures
        spec_classify(grid, monsters, x, y) == UnitActions::AFK,
{
}

/// The dungeon: tile grid, rooms, monster roster (spawn order, never
/// shrinking — dead monsters are retired in place), the player, and the
/// lazily recomputed visibility engine.
pub struct DungeonMap {
    grid: TileGrid,
    vis: VisibilityEngine,
    rooms: Vec<Room>,
    monsters: Vec<Unit>,
    player: Unit,
    complete: bool,
}

impl DungeonMap {
    pub closed spec fn grid_view(self) -> TileGrid {
        self.grid
    }

    pub closed spec fn vis_view(self) -> VisibilityEngine {
        self.vis
    }

    pub closed spec fn rooms_view(self) -> Seq<Room> {
        self.rooms@
    }

    pub closed spec fn monsters_view(self) -> Seq<Unit> {
        self.monsters@
    }

    pub closed spec fn player_view(self) -> Unit {
        self.player
    }

    pub closed spec fn complete_view(self) -> bool {
        self.complete
    }

    pub open spec fn spec_width(self) -> int {
        self.grid_view().width as int
    }

    pub open spec fn spec_height(self) -> int {
        self.grid_view().height as int
    }

    pub open spec fn map_in_bounds(self, x: int, y: int) -> bool {
        self.grid_view().in_bounds(x, y)
    }

    pub open spec fn tile_view(self, x: int, y: int) -> Tile {
        self.grid_view().tile_at(x, y)
    }

    /// Whether `(x, y)` is in the current visible set.
    pub open spec fn visible_view(self, x: int, y: int) -> bool {
        &&& self.vis_view().in_bounds(x, y)
        &&& self.vis_view().visible_at(x, y)
    }

    pub open spec fn classify_at(self, x: int, y: int) -> UnitActions {
        spec_classify(self.grid_view(), self.monsters_view(), x, y)
    }

    /// Well-formed: grid and visibility mask share bounded dimensions, every
    /// accepted room sits inside the border, and every unit is inside the
    /// grid with stats inside combat bounds — the player tagged Player,
    /// every monster tagged Basic, the roster no larger than the quota
    /// allows.
    pub closed spec fn wf(self) -> bool {
        &&& self.grid.wf()
        &&& self.vis.wf()
        &&& self.vis.width == self.grid.width
        &&& self.vis.height == self.grid.height
        &&& 1 <= self.rooms@.len() <= MAX_ROOMS
        &&& forall|k: int|
            0 <= k < self.rooms@.len() ==> placed_room_ok(
                #[trigger] self.rooms@[k],
                self.grid.width as int,
                self.grid.height as int,
            )
        &&& self.monsters@.len() <= (MAX_ROOMS - 1) * MAX_ROOM_MONSTERS
        &&& forall|i: int|
            0 <= i < self.monsters@.len() ==> {
                let m = #[trigger] self.monsters@[i];
                &&& combat_bounds(m)
                &&& self.grid.in_bounds(m.position.x as int, m.position.y as int)
                &&& m.ai == AI::Basic
            }
        &&& combat_bounds(self.player)
        &&& self.grid.in_bounds(self.player.position.x as int, self.player.position.y as int)
        &&& self.player.ai == AI::Player
    }

    /// Generate a dungeon from the ambient random source.
    pub fn new(width: i32, height: i32) -> (map: DungeonMap)
        requires
            13 <= width <= 0x2000_0000,
            13 <= height <= 0x2000_0000,
        ensures
            map.wf(),
            map.spec_width() == width,
            map.spec_height() == height,
            1 <= map.rooms_view().len() <= MAX_ROOMS,
            map.complete_view() <==> map.rooms_view().len() == MAX_ROOMS,
            forall|k: int|
                0 <= k < map.rooms_view().len() ==> placed_room_ok(
                    #[trigger] map.rooms_view()[k],
                    width as int,
                    height as int,
                ),
            rooms_disjoint(map.rooms_view()),
            rooms_carved(map.rooms_view(), map.grid_view()),
            rooms_connected(map.grid_view(), map.rooms_view()),
            tiles_pristine(map.grid_view()),
            monsters_placed_ok(map.monsters_view(), map.rooms_view()),
            is_player_preset(
                map.player_view(),
                map.rooms_view()[0].spec_center().x as int,
                map.rooms_view()[0].spec_center().y as int,
            ),
            map.rooms_view()[0].covers(
                map.player_view().position.x as int,
                map.player_view().position.y as int,
            ),
            !map.tile_view(
                map.player_view().position.x as int,
                map.player_view().position.y as int,
            ).blocked,
            map.vis_view().recompute_count == 0,
            !map.vis_view().has_computed,
            forall|x: int, y: int| !#[trigger] map.visible_view(x, y),
    {
        let mut rng = ThreadRandom::new();
        DungeonMap::generate_with(width, height, &mut rng)
    }

    /// Generate a dungeon from a caller-supplied random source (a
    /// deterministic source makes the dungeon reproducible).
    pub fn generate_with<R: RandomSource>(width: i32, height: i32, rng: &mut R) -> (map:
        DungeonMap)
        requires
            13 <= width <= 0x2000_0000,
            13 <= height <= 0x2000_0000,
        ensures
            map.wf(),
            map.spec_width() == width,
            map.spec_height() == height,
            1 <= map.rooms_view().len() <= MAX_ROOMS,
            map.complete_view() <==> map.rooms_view().len() == MAX_ROOMS,
            forall|k: int|
                0 <= k < map.rooms_view().len() ==> placed_room_ok(
                    #[trigger] map.rooms_view()[k],
                    width as int,
                    height as int,
                ),
            rooms_disjoint(map.rooms_view()),
            rooms_carved(map.rooms_view(), map.grid_view()),
            rooms_connected(map.grid_view(), map.rooms_view()),
            tiles_pristine(map.grid_view()),
            monsters_placed_ok(map.monsters_view(), map.rooms_view()),
            is_player_preset(
                map.player_view(),
                map.rooms_view()[0].spec_center().x as int,
                map.rooms_view()[0].spec_center().y as int,
            ),
            map.rooms_view()[0].covers(
                map.player_view().position.x as int,
                map.player_view().position.y as int,
            ),
            !map.tile_view(
                map.player_view().position.x as int,
                map.player_view().position.y as int,
            ).blocked,
            map.vis_view().recompute_count == 0,
            !map.vis_view().has_computed,
            forall|x: int, y: int| !#[trigger] map.visible_view(x, y),
    {
        let generated = generate_rooms(width, height, rng);

        let spawn_point = generated.rooms[0].get_center();
        proof {
            generated.rooms@[0].lemma_center_in_room();
        }
        let player = Unit::player(spawn_point.x, spawn_point.y);

        let vis = VisibilityEngine::new(width, height);

        DungeonMap {
            grid: generated.grid,
            vis,
            rooms: generated.rooms,
            monsters: generated.monsters,
            player,
            complete: generated.complete,
        }
    }

    /// Assemble a dungeon from explicitly constructed parts (for tests and
    /// harnesses), after validating everything the engine relies on; an
    /// invalid combination is rejected. The visibility engine starts fresh,
    /// and the layout counts as complete exactly when it meets the quota.
    pub fn from_parts(grid: TileGrid, rooms: Vec<Room>, monsters: Vec<Unit>, player: Unit) -> (r:
        Option<DungeonMap>)
        ensures
            r is Some <==> parts_valid(grid, rooms@, monsters@, player),
            r matches Some(map) ==> {
                &&& map.wf()
                &&& map.grid_view() == grid
                &&& map.rooms_view() == rooms@
                &&& map.monsters_view() == monsters@
                &&& map.player_view() == player
                &&& map.complete_view() == (rooms@.len() == MAX_ROOMS)
                &&& !map.vis_view().has_computed
                &&& map.vis_view().recompute_count == 0
                &&& forall|x: int, y: int| !#[trigger] map.visible_view(x, y)
            },
    {
        if grid.width <= 0 || grid.width > 0x2000_0000 || grid.height <= 0 || grid.height
            > 0x2000_0000 {
            return None;
        }
        if grid.tiles.len() != grid.width as usize {
            return None;
        }
        let mut ci: usize = 0;
        while ci < grid.tiles.len()
            invariant
                0 <= ci <= grid.tiles@.len(),
                0 < grid.height <= 0x2000_0000,
                forall|j: int| 0 <= j < ci ==> (#[trigger] grid.tiles@[j])@.len() == grid.height,
            decreases grid.tiles@.len() - ci,
        {
            if grid.tiles[ci].len() != grid.height as usize {
                return None;
            }
            ci += 1;
        }

        if rooms.len() < 1 || rooms.len() > MAX_ROOMS as usize {
            return None;
        }
        let mut ri: usize = 0;
        while ri < rooms.len()
            invariant
                0 <= ri <= rooms@.len(),
                grid.width <= 0x2000_0000,
                grid.height <= 0x2000_0000,
                forall|k: int|
                    0 <= k < ri ==> placed_room_ok(
                        #[trigger] rooms@[k],
                        grid.width as int,
                        grid.height as int,
                    ),
            decreases rooms@.len() - ri,
        {
            let room = &rooms[ri];
            let lx = room.left_x as i64;
            let rx = room.right_x as i64;
            let by = room.bottom_y as i64;
            let ty = room.top_y as i64;
            let ok = 1 <= lx && lx + ROOM_MIN_SIZE as i64 <= rx && rx <= lx + ROOM_MAX_SIZE as i64
                && rx < grid.width as i64 && 1 <= by && by + ROOM_MIN_SIZE as i64 <= ty && ty <= by
                + ROOM_MAX_SIZE as i64 && ty < grid.height as i64;
            if !ok {
                proof {
                    assert(!placed_room_ok(rooms@[ri as int], grid.width as int,
                        grid.height as int));
                }
                return None;
            }
            ri += 1;
        }

        if monsters.len() > ((MAX_ROOMS - 1) * MAX_ROOM_MONSTERS) as usize {
            return None;
        }
        let mut mi: usize = 0;
        while mi < monsters.len()
            invariant
                0 <= mi <= monsters@.len(),
                forall|k: int|
                    0 <= k < mi ==> unit_fits(#[trigger] monsters@[k], grid) && monsters@[k].ai
                        == AI::Basic,
            decreases monsters@.len() - mi,
        {
            let m = &monsters[mi];
            if !unit_fits_check(m, &grid) || !matches!(m.ai, AI::Basic) {
                return None;
            }
            mi += 1;
        }

        if !unit_fits_check(&player, &grid) || !matches!(player.ai, AI::Player) {
            return None;
        }

        let complete = rooms.len() == MAX_ROOMS as usize;
        let vis = VisibilityEngine::new(grid.width, grid.height);
        Some(DungeonMap { grid, vis, rooms, monsters, player, complete })
    }

    pub fn get_width(&self) -> (w: i32)
        ensures
            w == self.spec_width(),
    {
        self.grid.get_width()
    }

    pub fn get_height(&self) -> (h: i32)
        ensures
            h == self.spec_height(),
    {
        self.grid.get_height()
    }

    /// Whether generation reached its full room quota.
    pub fn is_generation_complete(&self) -> (c: bool)
        ensures
            c == self.complete_view(),
    {
        self.complete
    }

    pub fn get_player(&self) -> (player: &Unit)
        ensures
            *player == self.player_view(),
    {
        &self.player
    }

    /// The player's spawn point: the center of the first generated room.
    pub fn get_spawn_point(&self) -> (spawn: Coordinates)
        requires
            self.wf(),
        ensures
            spawn == self.rooms_view()[0].spec_center(),
    {
        self.rooms[0].get_center()
    }

    pub fn room_count(&self) -> (n: usize)
        ensures
            n == self.rooms_view().len(),
    {
        self.rooms.len()
    }

    /// The bounds of the `i`-th accepted room (with an empty transient
    /// monster list).
    pub fn get_room(&self, i: usize) -> (room: Room)
        requires
            i < self.rooms_view().len(),
        ensures
            room.left_x == self.rooms_view()[i as int].left_x,
            room.right_x == self.rooms_view()[i as int].right_x,
            room.bottom_y == self.rooms_view()[i as int].bottom_y,
            room.top_y == self.rooms_view()[i as int].top_y,
    {
        let r = &self.rooms[i];
        Room::new(r.left_x, r.right_x, r.bottom_y, r.top_y)
    }

    pub fn monster_count(&self) -> (n: usize)
        ensures
            n == self.monsters_view().len(),
    {
        self.monsters.len()
    }

    /// The `i`-th monster of the roster, in spawn order.
    pub fn get_monster(&self, i: usize) -> (monster: &Unit)
        requires
            i < self.monsters_view().len(),
        ensures
            *monster == self.monsters_view()[i as int],
    {
        &self.monsters[i]
    }

    /// Overwrite the tile at `(x, y)`; reports whether the address was in
    /// range (an out-of-range write changes nothing).
    pub fn set_tile(&mut self, x: i32, y: i32, tile: Tile) -> (r: bool)
        requires
            old(self).wf(),
        ensures
            final(self).wf(),
            r == old(self).map_in_bounds(x as int, y as int),
            final(self).spec_width() == old(self).spec_width(),
            final(self).spec_height() == old(self).spec_height(),
            forall|xi: int, yi: int|
                old(self).map_in_bounds(xi, yi) ==> #[trigger] final(self).tile_view(xi, yi)
                    == if r && xi == x && yi == y {
                        tile
                    } else {
                        old(self).tile_view(xi, yi)
                    },
            final(self).vis_view() == old(self).vis_view(),
            final(self).rooms_view() == old(self).rooms_view(),
            final(self).monsters_view() == old(self).monsters_view(),
            final(self).player_view() == old(self).player_view(),
    {
        self.grid.set(x, y, tile)
    }

    /// The tile at `(x, y)`, or an explicit failure for an out-of-range
    /// address.
    pub fn get_tile(&self, x: i32, y: i32) -> (r: Result<Tile, String>)
        requires
            self.wf(),
        ensures
            self.map_in_bounds(x as int, y as int) ==> r == Ok::<Tile, String>(
                self.tile_view(x as int, y as int),
            ),
            !self.map_in_bounds(x as int, y as int) ==> (r matches Err(message)
                && message@ == "Invalid coordinates"@),
    {
        match self.grid.get(x, y) {
            Some(tile) => Ok(tile),
            None => Err("Invalid coordinates".to_string()),
        }
    }

    /// Whether the cell at `(x, y)` is in the current visible set (false
    /// for out-of-range addresses).
    pub fn is_in_fov(&self, x: i32, y: i32) -> (r: bool)
        requires
            self.wf(),
        ensures
            r == self.visible_view(x as int, y as int),
    {
        self.vis.is_in_fov(x, y)
    }

    /// How many times the visibility sweep has actually run.
    pub fn recompute_count(&self) -> (c: u64)
        ensures
            c == self.vis_view().recompute_count,
    {
        self.vis.get_recompute_count()
    }

    /// Recompute the visible set from the player's position, lazily: if a
    /// sweep has already run from this exact position, nothing at all
    /// changes (the recompute counter included). Otherwise the sweep runs,
    /// the visible set becomes exactly what the origin and radius dictate,
    /// and every newly visible tile has its `explored` latch set. A tile
    /// once explored stays explored; no tile's blocking flags ever change.
    pub fn refresh_visibility(&mut self, radius: i32)
        requires
            old(self).wf(),
            0 <= radius <= 10_000,
        ensures
            final(self).wf(),
            final(self).spec_width() == old(self).spec_width(),
            final(self).spec_height() == old(self).spec_height(),
            final(self).rooms_view() == old(self).rooms_view(),
            final(self).monsters_view() == old(self).monsters_view(),
            final(self).player_view() == old(self).player_view(),
            old(self).vis_view().cache_hit(old(self).player_view().position) ==> *final(self)
                == *old(self),
            !old(self).vis_view().cache_hit(old(self).player_view().position) ==> {
                &&& final(self).vis_view().has_computed
                &&& final(self).vis_view().prev_origin == old(self).player_view().position
                &&& final(self).vis_view().recompute_count == if old(
                    self,
                ).vis_view().recompute_count < u64::MAX {
                    old(self).vis_view().recompute_count + 1
                } else {
                    u64::MAX as int
                }
                &&& forall|x: int, y: int|
                    old(self).map_in_bounds(x, y) ==> #[trigger] final(self).visible_view(x, y)
                        == spec_visible(
                        old(self).grid_view(),
                        old(self).player_view().position,
                        radius as int,
                        x,
                        y,
                    )
                &&& forall|x: int, y: int|
                    old(self).map_in_bounds(x, y) ==> #[trigger] final(self).tile_view(x, y)
                        == (Tile {
                        explored: old(self).tile_view(x, y).explored || spec_visible(
                            old(self).grid_view(),
                            old(self).player_view().position,
                            radius as int,
                            x,
                            y,
                        ),
                        ..old(self).tile_view(x, y)
                    })
            },
            forall|x: int, y: int|
                old(self).map_in_bounds(x, y) && old(self).tile_view(x, y).explored
                    ==> (#[trigger] final(self).tile_view(x, y)).explored,
            forall|x: int, y: int|
                old(self).map_in_bounds(x, y) ==> (#[trigger] final(self).tile_view(x, y)).blocked
                    == old(self).tile_view(x, y).blocked && final(self).tile_view(x, y).block_sight
                    == old(self).tile_view(x, y).block_sight,
    {
        let origin = Coordinates { x: self.player.get_position().x, y: self.player.get_position().y };
        self.vis.refresh(&mut self.grid, origin, radius);
    }

    /// Classify the cell `(x, y)` for an actor, and name the attack target:
    /// AFK outside the grid or on a blocked tile; Attack, together with the
    /// roster index of the first living point-blocking monster standing
    /// there; Move otherwise (the second component is zero when there is no
    /// target).
    pub fn possible_action(&self, x: i32, y: i32) -> (r: (UnitActions, usize))
        requires
            self.wf(),
        ensures
            r.0 == self.classify_at(x as int, y as int),
            r.0 == UnitActions::Attack ==> {
                &&& 0 <= r.1 < self.monsters_view().len()
                &&& r.1 == first_blocking_from(self.monsters_view(), x as int, y as int, 0)
                &&& spec_blocks_at(self.monsters_view()[r.1 as int], x as int, y as int)
            },
            r.0 != UnitActions::Attack ==> r.1 == 0,
    {
        let is_map_end = x < 0 || x > self.grid.get_width() - 1 || y < 0 || y
            > self.grid.get_height() - 1;

        if is_map_end {
            return (UnitActions::AFK, 0);
        }

        let tile = self.get_tile(x, y);

        let is_tile_blocked = if let Ok(tile) = tile {
            tile.is_blocked()
        } else {
            false
        };

        if is_tile_blocked {
            return (UnitActions::AFK, 0);
        }

        let mut i: usize = 0;
        while i < self.monsters.len()
            invariant
                self.wf(),
                self.map_in_bounds(x as int, y as int),
                !self.tile_view(x as int, y as int).blocked,
                0 <= i <= self.monsters@.len(),
                forall|j: int|
                    0 <= j < i ==> !spec_blocks_at(#[trigger] self.monsters@[j], x as int, y as int),
                first_blocking_from(self.monsters@, x as int, y as int, 0) == first_blocking_from(
                    self.monsters@,
                    x as int,
                    y as int,
                    i as int,
                ),
            decreases self.monsters@.len() - i,
        {
            let monster = &self.monsters[i];
            let pos = monster.get_position();

            if monster.is_blocks_point() && x == pos.x && y == pos.y {
                proof {
                    assert(spec_blocks_at(self.monsters@[i as int], x as int, y as int));
                }
                return (UnitActions::Attack, i);
            }

            i += 1;
        }

        (UnitActions::Move, 0)
    }

    /// Resolve one player intent as a displacement: a Move applies the
    /// displacement, an Attack resolves combat against the first blocking
    /// monster at the destination, and AFK does nothing. Returns whether the
    /// intent consumed a turn (AFK does not).
    pub fn player_move_or_attack(&mut self, x: i32, y: i32) -> (turn: bool)
        requires
            old(self).wf(),
        ensures
            final(self).wf(),
            ({
                let tx = old(self).player_view().position.x + x;
                let ty = old(self).player_view().position.y + y;
                let action = old(self).classify_at(tx, ty);
                &&& turn == (action != UnitActions::AFK)
                &&& action == UnitActions::Move ==> {
                    &&& final(self).player_view() == (Unit {
                        position: Coordinates { x: tx as i32, y: ty as i32 },
                        ..old(self).player_view()
                    })
                    &&& final(self).monsters_view() == old(self).monsters_view()
                }
                &&& action == UnitActions::Attack ==> {
                    let target = first_blocking_from(old(self).monsters_view(), tx, ty, 0);
                    &&& final(self).monsters_view() == old(self).monsters_view().update(
                        target,
                        spec_attacked(old(self).player_view(), old(self).monsters_view()[target]),
                    )
                    &&& final(self).player_view() == old(self).player_view()
                }
                &&& action == UnitActions::AFK ==> *final(self) == *old(self)
            }),
            final(self).grid_view() == old(self).grid_view(),
            final(self).vis_view() == old(self).vis_view(),
            final(self).rooms_view() == old(self).rooms_view(),
            final(self).complete_view() == old(self).complete_view(),
    {
        let px = self.player.get_position().x;
        let py = self.player.get_position().y;
        let next_x64: i64 = px as i64 + x as i64;
        let next_y64: i64 = py as i64 + y as i64;

        if next_x64 < 0 || next_x64 >= self.grid.get_width() as i64 || next_y64 < 0 || next_y64
            >= self.grid.get_height() as i64 {
            return false;
        }

        let next_x: i32 = next_x64 as i32;
        let next_y: i32 = next_y64 as i32;

        match self.possible_action(next_x, next_y) {
            (UnitActions::Move, _) => {
                self.player.move_by(x, y);

                true
            },
            (UnitActions::Attack, target_id) => {
                let _ = self.player.attack(&mut self.monsters[target_id]);

                true
            },
            (UnitActions::AFK, _) => false,
        }
    }
}

/// The state the monster pass leaves behind, processed from roster index `i`
/// on: each living monster inside the visible set either steps one cell
/// toward the player (when at squared distance of at least four and the
/// destination classifies as Move against the then-current state) or, when
/// closer, attacks the player. Dead and unseen monsters do nothing.
pub open spec fn monsters_pass(
    grid: TileGrid,
    vis: VisibilityEngine,
    monsters: Seq<Unit>,
    player: Unit,
    i: int,
) -> (Seq<Unit>, Unit)
    decreases monsters.len() - i,
{
    if i < 0 || i >= monsters.len() {
        (monsters, player)
    } else {
        let m = monsters[i];
        if !m.alive || !(vis.in_bounds(m.position.x as int, m.position.y as int) && vis.visible_at(
            m.position.x as int,
            m.position.y as int,
        )) {
            monsters_pass(grid, vis, monsters, player, i + 1)
        } else {
            let d2 = dist_sq(m.position, player.position);
            let sx = step_component(
                player.position.x - m.position.x,
                player.position.y - m.position.y,
            );
            let sy = step_component(
                player.position.y - m.position.y,
                player.position.x - m.position.x,
            );
            if d2 >= 4 {
                let nx = m.position.x + sx;
                let ny = m.position.y + sy;
                if spec_classify(grid, monsters, nx, ny) == UnitActions::Move {
                    let moved = Unit {
                        position: Coordinates { x: nx as i32, y: ny as i32 },
                        ..m
                    };
                    monsters_pass(grid, vis, monsters.update(i, moved), player, i + 1)
                } else {
                    monsters_pass(grid, vis, monsters, player, i + 1)
                }
            } else {
                monsters_pass(grid, vis, monsters, spec_attacked(m, player), i + 1)
            }
        }
    }
}

/// The roster never shrinks, dead monsters are retired in place (the pass
/// leaves them exactly as they were), and no monster attack ever displaces
/// the player.
pub proof fn lemma_monsters_pass_roster(
    grid: TileGrid,
    vis: VisibilityEngine,
    monsters: Seq<Unit>,
    player: Unit,
    i: int,
)
    ensures
        monsters_pass(grid, vis, monsters, player, i).0.len() == monsters.len(),
        forall|j: int|
            0 <= j < monsters.len() && !(#[trigger] monsters[j]).alive ==> monsters_pass(
                grid,
                vis,
                monsters,
                player,
                i,
            ).0[j] == monsters[j],
        monsters_pass(grid, vis, monsters, player, i).1.position == player.position,
    decreases monsters.len() - i,
{
    if 0 <= i < monsters.len() {
        let m = monsters[i];
        if !m.alive || !(vis.in_bounds(m.position.x as int, m.position.y as int)
            && vis.visible_at(m.position.x as int, m.position.y as int)) {
            lemma_monsters_pass_roster(grid, vis, monsters, player, i + 1);
        } else {
            let d2 = dist_sq(m.position, player.position);
            let sx = step_component(
                player.position.x - m.position.x,
                player.position.y - m.position.y,
            );
            let sy = step_component(
                player.position.y - m.position.y,
                player.position.x - m.position.x,
            );
            if d2 >= 4 {
                let nx = m.position.x + sx;
                let ny = m.position.y + sy;
                if spec_classify(grid, monsters, nx, ny) == UnitActions::Move {
                    let moved = Unit {
                        position: Coordinates { x: nx as i32, y: ny as i32 },
                        ..m
                    };
                    let stepped = monsters.update(i, moved);
                    lemma_monsters_pass_roster(grid, vis, stepped, player, i + 1);
                    assert forall|j: int|
                        0 <= j < monsters.len() && !(#[trigger] monsters[j]).alive
                            implies monsters_pass(grid, vis, monsters, player, i).0[j]
                        == monsters[j] by {
                        assert(j != i);
                        assert(stepped[j] == monsters[j]);
                        assert(monsters_pass(grid, vis, stepped, player, i + 1).0[j]
                            == stepped[j]);
                    }
                } else {
                    lemma_monsters_pass_roster(grid, vis, monsters, player, i + 1);
                }
            } else {
                lemma_monsters_pass_roster(grid, vis, monsters, spec_attacked(m, player), i + 1);
            }
        }
    }
}

impl DungeonMap {
    /// Run the monsters' half of the turn, gated on the player's intent:
    /// only when the player is alive and the last user action consumed a
    /// turn does any monster act; otherwise nothing at all changes. Monsters
    /// act in stable roster (spawn) order, exactly as `monsters_pass`
    /// states.
    pub fn monsters_action(&mut self, user_action: UserActions)
        requires
            old(self).wf(),
        ensures
            final(self).wf(),
            !(old(self).player_view().alive && user_action == UserActions::TookTurn)
                ==> *final(self) == *old(self),
            (old(self).player_view().alive && user_action == UserActions::TookTurn) ==> {
                let passed = monsters_pass(
                    old(self).grid_view(),
                    old(self).vis_view(),
                    old(self).monsters_view(),
                    old(self).player_view(),
                    0,
                );
                &&& final(self).monsters_view() == passed.0
                &&& final(self).player_view() == passed.1
            },
            final(self).grid_view() == old(self).grid_view(),
            final(self).vis_view() == old(self).vis_view(),
            final(self).rooms_view() == old(self).rooms_view(),
            final(self).complete_view() == old(self).complete_view(),
    {
        let run = self.player.is_alive() && user_action == UserActions::TookTurn;

        if run {
            let ghost g0 = self.grid;
            let ghost v0 = self.vis;
            let ghost m0 = self.monsters@;
            let ghost p0 = self.player;

            let mut i: usize = 0;
            while i < self.monsters.len()
                invariant
                    self.wf(),
                    self.grid == g0,
                    self.vis == v0,
                    self.rooms@ == old(self).rooms@,
                    self.complete == old(self).complete,
                    self.monsters@.len() == m0.len(),
                    m0.len() <= (MAX_ROOMS - 1) * MAX_ROOM_MONSTERS,
                    0 <= i <= self.monsters@.len(),
                    self.player.stats.current_hp >= 1 - (i as int) * 1000,
                    monsters_pass(g0, v0, m0, p0, 0) == monsters_pass(
                        g0,
                        v0,
                        self.monsters@,
                        self.player,
                        i as int,
                    ),
                decreases self.monsters@.len() - i,
            {
                let ghost pre = *self;

                let alive = self.monsters[i].is_alive();
                let mpos = *self.monsters[i].get_position();
                let in_fov = self.vis.is_in_fov(mpos.x, mpos.y);

                if alive && in_fov {
                    let ppos = *self.player.get_position();
                    let (distance_sq, dx, dy) = self.monsters[i].monster_step(&ppos);

                    if distance_sq >= 4 {
                        let next_x = mpos.x + dx;
                        let next_y = mpos.y + dy;

                        let (possible_monster_action, _) = self.possible_action(next_x, next_y);

                        if possible_monster_action == UnitActions::Move {
                            self.monsters[i].move_by(dx, dy);
                        }
                    } else {
                        let _ = self.monsters[i].attack(&mut self.player);
                    }
                }

                proof {
                    assert(monsters_pass(g0, v0, pre.monsters@, pre.player, i as int)
                        == monsters_pass(g0, v0, self.monsters@, self.player, i + 1));
                }

                i += 1;
            }
        }
    }
}

} // verus!
