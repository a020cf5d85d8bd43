use roguelike_core::{
    DungeonMap, Room, TileGrid, Unit, UnitActions, UserActions, TORCH_RADIUS,
};

fn arena(monsters: Vec<Unit>, player: Unit) -> DungeonMap {
    let mut grid = TileGrid::new(20, 20);
    Room::new(1, 16, 1, 16).fill(&mut grid);
    let rooms = vec![Room::new(1, 8, 1, 8)];
    DungeonMap::from_parts(grid, rooms, monsters, player).unwrap()
}

#[test]
fn from_parts_rejects_invalid_layouts() {
    // No rooms at all.
    let grid = TileGrid::new(20, 20);
    assert!(DungeonMap::from_parts(grid, Vec::new(), Vec::new(), Unit::player(5, 5)).is_none());

    // A room overflowing the border.
    let grid = TileGrid::new(20, 20);
    let rooms = vec![Room::new(14, 20, 1, 8)];
    assert!(DungeonMap::from_parts(grid, rooms, Vec::new(), Unit::player(5, 5)).is_none());

    // A unit standing outside the grid.
    let grid = TileGrid::new(20, 20);
    let rooms = vec![Room::new(1, 8, 1, 8)];
    assert!(DungeonMap::from_parts(grid, rooms, Vec::new(), Unit::player(25, 5)).is_none());
}

#[test]
fn classify_out_of_bounds_is_always_afk() {
    let map = arena(vec![Unit::orc(5, 2, 1)], Unit::player(5, 5));
    for (x, y) in [(-1, 5), (5, -1), (20, 5), (5, 20), (-100, -100), (1000, 1000)] {
        let (action, target) = map.possible_action(x, y);
        assert_eq!(action, UnitActions::AFK);
        assert_eq!(target, 0);
    }
}

#[test]
fn classify_walls_monsters_and_floor() {
    let map = arena(vec![Unit::orc(5, 2, 1)], Unit::player(5, 5));

    // A wall tile is AFK.
    let (action, _) = map.possible_action(0, 0);
    assert_eq!(action, UnitActions::AFK);

    // A living, point-blocking monster is Attack, with its roster index.
    let (action, target) = map.possible_action(5, 2);
    assert_eq!(action, UnitActions::Attack);
    assert_eq!(target, 0);

    // Open floor is Move.
    let (action, _) = map.possible_action(6, 6);
    assert_eq!(action, UnitActions::Move);
}

#[test]
fn get_tile_reports_invalid_coordinates() {
    let map = arena(Vec::new(), Unit::player(5, 5));
    let err = map.get_tile(-1, 3).unwrap_err();
    assert_eq!(err, "Invalid coordinates");
    assert!(map.get_tile(3, 3).is_ok());
}

#[test]
fn player_move_applies_displacement() {
    let mut map = arena(Vec::new(), Unit::player(5, 5));
    assert!(map.player_move_or_attack(0, -1));
    let p = map.get_player().get_position();
    assert_eq!((p.x, p.y), (5, 4));
}

#[test]
fn player_move_into_wall_is_rejected() {
    let mut map = arena(Vec::new(), Unit::player(1, 1));
    assert!(!map.player_move_or_attack(-1, 0));
    let p = map.get_player().get_position();
    assert_eq!((p.x, p.y), (1, 1));
}

#[test]
fn player_attacks_adjacent_monster() {
    let mut map = arena(vec![Unit::orc(5, 4, 1)], Unit::player(5, 5));
    assert!(map.player_move_or_attack(0, -1));
    // Player damage 5 against orc defense 0: one hit costs 5 hit points,
    // and the player does not move onto the monster.
    assert_eq!(map.get_monster(0).current_hp(), 5);
    let p = map.get_player().get_position();
    assert_eq!((p.x, p.y), (5, 5));

    // A second blow kills the orc; the corpse stops blocking the cell.
    assert!(map.player_move_or_attack(0, -1));
    assert_eq!(map.get_monster(0).current_hp(), 0);
    assert!(!map.get_monster(0).is_alive());
    assert!(!map.get_monster(0).is_blocks_point());
    let (action, _) = map.possible_action(5, 4);
    assert_eq!(action, UnitActions::Move);
}

#[test]
fn monster_walks_toward_player_then_attacks() {
    // Player at (5,5), monster at (5,2): squared distance 9, so the monster
    // steps (0,1) twice; from (5,4) the distance is 1, so it attacks.
    let mut map = arena(vec![Unit::orc(5, 2, 1)], Unit::player(5, 5));
    map.refresh_visibility(TORCH_RADIUS);

    map.monsters_action(UserActions::TookTurn);
    let m = map.get_monster(0).get_position();
    assert_eq!((m.x, m.y), (5, 3));
    assert_eq!(map.get_player().current_hp(), 30);

    map.monsters_action(UserActions::TookTurn);
    let m = map.get_monster(0).get_position();
    assert_eq!((m.x, m.y), (5, 4));
    assert_eq!(map.get_player().current_hp(), 30);

    // Adjacent now: the monster attacks (orc damage 3, player defense 2)
    // instead of stepping onto the player.
    map.monsters_action(UserActions::TookTurn);
    let m = map.get_monster(0).get_position();
    assert_eq!((m.x, m.y), (5, 4));
    assert_eq!(map.get_player().current_hp(), 29);
}

#[test]
fn no_turn_means_no_monster_acts() {
    let mut map = arena(vec![Unit::orc(5, 4, 1)], Unit::player(5, 5));
    map.refresh_visibility(TORCH_RADIUS);

    // DidNotTakeTurn gates the whole monster pass, adjacency regardless.
    map.monsters_action(UserActions::DidNotTakeTurn);
    let m = map.get_monster(0).get_position();
    assert_eq!((m.x, m.y), (5, 4));
    assert_eq!(map.get_player().current_hp(), 30);

    // Only an action that took a turn lets monsters act.
    map.monsters_action(UserActions::Exit);
    assert_eq!(map.get_player().current_hp(), 30);

    map.monsters_action(UserActions::TookTurn);
    assert_eq!(map.get_player().current_hp(), 29);
}

#[test]
fn unseen_monsters_do_not_act() {
    // Without any visibility sweep the visible set is empty, so even an
    // adjacent monster stays put.
    let mut map = arena(vec![Unit::orc(5, 4, 1)], Unit::player(5, 5));
    map.monsters_action(UserActions::TookTurn);
    let m = map.get_monster(0).get_position();
    assert_eq!((m.x, m.y), (5, 4));
    assert_eq!(map.get_player().current_hp(), 30);
}

#[test]
fn dead_monsters_are_skipped() {
    let mut map = arena(vec![Unit::orc(5, 4, 1)], Unit::player(5, 5));
    map.refresh_visibility(TORCH_RADIUS);
    // Two player blows kill the orc.
    assert!(map.player_move_or_attack(0, -1));
    assert!(map.player_move_or_attack(0, -1));
    assert!(!map.get_monster(0).is_alive());

    // The corpse neither moves nor attacks.
    map.monsters_action(UserActions::TookTurn);
    let m = map.get_monster(0).get_position();
    assert_eq!((m.x, m.y), (5, 4));
    assert_eq!(map.get_player().current_hp(), 30);
}

#[test]
fn monsters_stop_acting_once_player_is_dead() {
    // A strong custom monster kills the player, then further passes change
    // nothing.
    let brute = Unit::new(
        5,
        4,
        'B',
        roguelike_core::Rgb { r: 9, g: 9, b: 9 },
        "Brute",
        true,
        true,
        1,
        roguelike_core::AI::Basic,
        100,
        100,
        10,
        1000,
    );
    let mut map = arena(vec![brute], Unit::player(5, 5));
    map.refresh_visibility(TORCH_RADIUS);
    map.monsters_action(UserActions::TookTurn);
    assert!(!map.get_player().is_alive());
    let hp = map.get_player().current_hp();

    map.monsters_action(UserActions::TookTurn);
    assert_eq!(map.get_player().current_hp(), hp);
}
