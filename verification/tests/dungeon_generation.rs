use roguelike_core::generation::spawn_monsters;
use roguelike_core::rng::RandomSource;
use roguelike_core::{DungeonMap, Lcg, Room, ThreadRandom, MAX_ROOMS};

#[test]
fn seeded_generation_reaches_full_quota() {
    let mut rng = Lcg::new(7);
    let map = DungeonMap::generate_with(80, 50, &mut rng);
    assert!(map.is_generation_complete());
    assert_eq!(map.room_count(), MAX_ROOMS as usize);
}

#[test]
fn rooms_are_pairwise_non_overlapping() {
    let mut rng = Lcg::new(7);
    let map = DungeonMap::generate_with(80, 50, &mut rng);
    let n = map.room_count();
    for i in 0..n {
        for j in 0..n {
            if i != j {
                let a = map.get_room(i);
                let b = map.get_room(j);
                assert!(!a.intersects_with_as_rooms(&b));
            }
        }
    }
}

#[test]
fn rooms_sit_inside_the_border_with_legal_sizes() {
    let mut rng = Lcg::new(11);
    let map = DungeonMap::generate_with(60, 40, &mut rng);
    for i in 0..map.room_count() {
        let r = map.get_room(i);
        assert!(1 <= r.left_x && r.right_x < 60);
        assert!(1 <= r.bottom_y && r.top_y < 40);
        let w = r.right_x - r.left_x;
        let h = r.top_y - r.bottom_y;
        assert!((6..=10).contains(&w));
        assert!((6..=10).contains(&h));
    }
}

#[test]
fn player_spawns_at_first_room_center() {
    let mut rng = Lcg::new(3);
    let map = DungeonMap::generate_with(80, 50, &mut rng);
    let spawn = map.get_spawn_point();
    let center = map.get_room(0).get_center();
    assert!(spawn.is_equal(&center));
    assert!(map.get_player().get_position().is_equal(&spawn));
}

#[test]
fn room_interiors_are_carved() {
    let mut rng = Lcg::new(5);
    let map = DungeonMap::generate_with(80, 50, &mut rng);
    for i in 0..map.room_count() {
        let r = map.get_room(i);
        for x in r.left_x..r.right_x {
            for y in r.bottom_y..r.top_y {
                assert!(!map.get_tile(x, y).unwrap().is_blocked());
            }
        }
    }
}

#[test]
fn all_room_centers_reachable_from_spawn() {
    let mut rng = Lcg::new(7);
    let map = DungeonMap::generate_with(80, 50, &mut rng);

    // Flood-fill the walkable tiles from the spawn point.
    let mut seen = vec![vec![false; 50]; 80];
    let spawn = map.get_spawn_point();
    let mut stack = vec![(spawn.x, spawn.y)];
    seen[spawn.x as usize][spawn.y as usize] = true;
    while let Some((x, y)) = stack.pop() {
        for (dx, dy) in [(1, 0), (-1, 0), (0, 1), (0, -1)] {
            let (nx, ny) = (x + dx, y + dy);
            if (0..80).contains(&nx) && (0..50).contains(&ny) && !seen[nx as usize][ny as usize]
                && !map.get_tile(nx, ny).unwrap().is_blocked()
            {
                seen[nx as usize][ny as usize] = true;
                stack.push((nx, ny));
            }
        }
    }

    // Every room center lies in the flood-filled region.
    for i in 0..map.room_count() {
        let c = map.get_room(i).get_center();
        assert!(seen[c.x as usize][c.y as usize]);
    }
}

#[test]
fn monsters_spawn_inside_their_rooms() {
    let mut rng = Lcg::new(9);
    let map = DungeonMap::generate_with(80, 50, &mut rng);
    assert!(map.monster_count() <= (MAX_ROOMS as usize - 1) * 3);
    for i in 0..map.monster_count() {
        let m = map.get_monster(i);
        let room_id = m.spawn_room() as usize;
        assert!(1 <= room_id && room_id < map.room_count());
        let room = map.get_room(room_id);
        let pos = m.get_position();
        assert!(room.left_x <= pos.x && pos.x < room.right_x);
        assert!(room.bottom_y <= pos.y && pos.y < room.top_y);
        assert!(m.is_alive());
        assert!(m.is_blocks_point());
        match m.name().as_str() {
            "Orc" => {
                assert_eq!(m.max_hp(), 10);
                assert_eq!(m.defense(), 0);
                assert_eq!(m.get_glyph(), 'o');
            }
            "Troll" => {
                assert_eq!(m.max_hp(), 16);
                assert_eq!(m.defense(), 1);
                assert_eq!(m.get_glyph(), 'T');
            }
            other => panic!("unexpected monster archetype: {}", other),
        }
    }
}

#[test]
fn monsters_of_one_room_stand_on_distinct_cells() {
    let mut rng = Lcg::new(13);
    let map = DungeonMap::generate_with(80, 50, &mut rng);
    for i in 0..map.monster_count() {
        for j in 0..map.monster_count() {
            if i != j {
                let a = map.get_monster(i);
                let b = map.get_monster(j);
                if a.spawn_room() == b.spawn_room() {
                    assert!(!a.get_position().is_equal(b.get_position()));
                }
            }
        }
    }
}

#[test]
fn spawn_monsters_respects_room_and_count() {
    let room = Room::new(2, 9, 3, 10);
    let mut rng = Lcg::new(21);
    for _ in 0..20 {
        let monsters = spawn_monsters(&room, 4, &mut rng);
        assert!(monsters.len() <= 3);
        for m in &monsters {
            assert_eq!(m.spawn_room(), 4);
            let pos = m.get_position();
            assert!(2 <= pos.x && pos.x < 9);
            assert!(3 <= pos.y && pos.y < 10);
        }
        for a in 0..monsters.len() {
            for b in 0..monsters.len() {
                if a != b {
                    assert!(!monsters[a].get_position().is_equal(monsters[b].get_position()));
                }
            }
        }
    }
}

#[test]
fn ambient_generation_works() {
    let map = DungeonMap::new(100, 70);
    assert!(map.room_count() >= 1);
    if map.is_generation_complete() {
        assert_eq!(map.room_count(), MAX_ROOMS as usize);
    }
    let spawn = map.get_spawn_point();
    assert!(map.get_player().get_position().is_equal(&spawn));
}

#[test]
fn ambient_random_source_stays_in_range() {
    let mut rng = ThreadRandom::new();
    for _ in 0..200 {
        let r = rng.next_in(3, 5);
        assert!((3..5).contains(&r));
    }
    let mut seen_range = false;
    let first = rng.next_in(0, 1000000);
    for _ in 0..100 {
        if rng.next_in(0, 1000000) != first {
            seen_range = true;
        }
    }
    assert!(seen_range);
    let _ = rng.next_bool();
}

#[test]
fn seeded_source_is_reproducible() {
    let mut a = Lcg::new(99);
    let mut b = Lcg::new(99);
    for _ in 0..50 {
        assert_eq!(a.next_in(0, 1000), b.next_in(0, 1000));
        assert_eq!(a.next_bool(), b.next_bool());
    }
}
