use roguelike_core::{DungeonMap, Lcg, Room, TileGrid, Unit, TORCH_RADIUS};

fn open_arena_with(monsters: Vec<Unit>, player: Unit) -> DungeonMap {
    let mut grid = TileGrid::new(20, 20);
    Room::new(1, 16, 1, 16).fill(&mut grid);
    let rooms = vec![Room::new(1, 8, 1, 8)];
    DungeonMap::from_parts(grid, rooms, monsters, player).unwrap()
}

#[test]
fn nothing_is_visible_or_explored_before_the_first_sweep() {
    let mut rng = Lcg::new(7);
    let map = DungeonMap::generate_with(80, 50, &mut rng);
    assert_eq!(map.recompute_count(), 0);
    for x in 0..80 {
        for y in 0..50 {
            assert!(!map.is_in_fov(x, y));
            assert!(!map.get_tile(x, y).unwrap().is_explored());
        }
    }
}

#[test]
fn refresh_with_unchanged_origin_is_a_cached_no_op() {
    let mut rng = Lcg::new(7);
    let mut map = DungeonMap::generate_with(80, 50, &mut rng);

    map.refresh_visibility(TORCH_RADIUS);
    assert_eq!(map.recompute_count(), 1);

    let mut first: Vec<(i32, i32)> = Vec::new();
    for x in 0..80 {
        for y in 0..50 {
            if map.is_in_fov(x, y) {
                first.push((x, y));
            }
        }
    }

    // Same origin: no sweep runs and the visible set is identical.
    map.refresh_visibility(TORCH_RADIUS);
    assert_eq!(map.recompute_count(), 1);
    let mut second: Vec<(i32, i32)> = Vec::new();
    for x in 0..80 {
        for y in 0..50 {
            if map.is_in_fov(x, y) {
                second.push((x, y));
            }
        }
    }
    assert_eq!(first, second);
}

#[test]
fn explored_is_monotonic_across_sweeps() {
    let mut rng = Lcg::new(7);
    let mut map = DungeonMap::generate_with(80, 50, &mut rng);
    map.refresh_visibility(TORCH_RADIUS);

    let mut explored: Vec<(i32, i32)> = Vec::new();
    for x in 0..80 {
        for y in 0..50 {
            if map.get_tile(x, y).unwrap().is_explored() {
                explored.push((x, y));
            }
        }
    }
    assert!(!explored.is_empty());

    // Move the player somewhere (the spawn room interior guarantees at
    // least one open direction), then sweep from the new origin.
    let moved = map.player_move_or_attack(1, 0) || map.player_move_or_attack(-1, 0)
        || map.player_move_or_attack(0, 1) || map.player_move_or_attack(0, -1);
    assert!(moved);
    map.refresh_visibility(TORCH_RADIUS);
    assert_eq!(map.recompute_count(), 2);

    for (x, y) in explored {
        assert!(map.get_tile(x, y).unwrap().is_explored());
    }
}

#[test]
fn visible_set_respects_the_radius() {
    let mut rng = Lcg::new(7);
    let mut map = DungeonMap::generate_with(80, 50, &mut rng);
    map.refresh_visibility(TORCH_RADIUS);
    let p = *map.get_player().get_position();
    assert!(map.is_in_fov(p.x, p.y));
    for x in 0..80 {
        for y in 0..50 {
            let d2 = i64::from(x - p.x) * i64::from(x - p.x)
                + i64::from(y - p.y) * i64::from(y - p.y);
            if d2 > i64::from(TORCH_RADIUS) * i64::from(TORCH_RADIUS) {
                assert!(!map.is_in_fov(x, y));
            }
        }
    }
}

#[test]
fn walls_are_lit() {
    // An arena carved over x,y in [1,16); the player stands at (4,4).
    let player = Unit::player(4, 4);
    let mut map = open_arena_with(Vec::new(), player);
    map.refresh_visibility(TORCH_RADIUS);

    // Carved cells on the player's row inside the radius are lit.
    for x in 1..14 {
        assert!(map.is_in_fov(x, 4), "carved cell ({}, 4) should be lit", x);
    }
    // The border wall at (0, 4) is the first blocker the ray meets: it is
    // itself lit (light walls).
    assert!(map.get_tile(0, 4).unwrap().is_blocked());
    assert!(map.is_in_fov(0, 4));
}

#[test]
fn sight_blocking_walls_hide_cells_behind_them() {
    // Build a pillar: carve the arena, then re-wall a single cell between
    // the player and a probe cell.
    let player = Unit::player(4, 4);
    let mut grid = TileGrid::new(20, 20);
    Room::new(1, 16, 1, 16).fill(&mut grid);
    let pillar = roguelike_core::Tile::wall();
    assert!(grid.set(8, 4, pillar));
    let rooms = vec![Room::new(1, 8, 1, 8)];
    let mut map = DungeonMap::from_parts(grid, rooms, Vec::new(), player).unwrap();

    map.refresh_visibility(TORCH_RADIUS);
    // The pillar itself is lit (light walls), the cells straight behind it
    // on the same row are not.
    assert!(map.is_in_fov(8, 4));
    assert!(!map.is_in_fov(9, 4));
    assert!(!map.is_in_fov(10, 4));
    // Off the blocked line, sight continues.
    assert!(map.is_in_fov(7, 4));
    assert!(map.is_in_fov(8, 5));
}
