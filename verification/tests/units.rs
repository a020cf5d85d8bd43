use roguelike_core::{Coordinates, Rgb, Unit, UnitStats, AI};

#[test]
fn player_preset_stats() {
    let p = Unit::player(3, 4);
    assert_eq!(p.get_position().x, 3);
    assert_eq!(p.get_position().y, 4);
    assert_eq!(p.get_glyph(), '@');
    assert_eq!(p.get_color(), Rgb { r: 255, g: 255, b: 255 });
    assert_eq!(p.name().as_str(), "Player");
    assert!(p.is_alive());
    assert!(p.is_blocks_point());
    assert_eq!(p.spawn_room(), 0);
    assert_eq!(p.max_hp(), 30);
    assert_eq!(p.current_hp(), 30);
    assert_eq!(p.defense(), 2);
}

#[test]
fn orc_preset_stats() {
    let o = Unit::orc(7, 8, 5);
    assert_eq!(o.get_glyph(), 'o');
    assert_eq!(o.get_color(), Rgb { r: 63, g: 127, b: 63 });
    assert_eq!(o.name().as_str(), "Orc");
    assert!(o.is_alive());
    assert!(o.is_blocks_point());
    assert_eq!(o.spawn_room(), 5);
    assert_eq!(o.max_hp(), 10);
    assert_eq!(o.current_hp(), 10);
    assert_eq!(o.defense(), 0);
}

#[test]
fn troll_preset_stats() {
    let t = Unit::troll(1, 2, 9);
    assert_eq!(t.get_glyph(), 'T');
    assert_eq!(t.get_color(), Rgb { r: 0, g: 191, b: 0 });
    assert_eq!(t.name().as_str(), "Troll");
    assert_eq!(t.spawn_room(), 9);
    assert_eq!(t.max_hp(), 16);
    assert_eq!(t.current_hp(), 16);
    assert_eq!(t.defense(), 1);
}

#[test]
fn custom_unit_construction() {
    let u = Unit::new(
        2,
        3,
        'x',
        Rgb { r: 1, g: 2, b: 3 },
        "Dummy",
        true,
        true,
        4,
        AI::Basic,
        12,
        11,
        1,
        2,
    );
    assert_eq!(u.get_position().x, 2);
    assert_eq!(u.get_position().y, 3);
    assert_eq!(u.get_glyph(), 'x');
    assert_eq!(u.name().as_str(), "Dummy");
    assert_eq!(u.max_hp(), 12);
    assert_eq!(u.current_hp(), 11);
    assert_eq!(u.defense(), 1);
    assert_eq!(u.stats, UnitStats { max_hp: 12, current_hp: 11, defense: 1, damage: 2 });
}

#[test]
fn move_by_displaces() {
    let mut u = Unit::player(5, 5);
    u.move_by(1, 0);
    assert_eq!(u.get_position().x, 6);
    assert_eq!(u.get_position().y, 5);
    u.move_by(-2, 3);
    assert_eq!(u.get_position().x, 4);
    assert_eq!(u.get_position().y, 8);
}

#[test]
fn monster_step_three_cells_away() {
    // Player at (5,5), monster at (5,2): distance 3 (squared 9), step (0,1).
    let m = Unit::orc(5, 2, 1);
    let (d2, dx, dy) = m.monster_step(&Coordinates { x: 5, y: 5 });
    assert_eq!(d2, 9);
    assert_eq!((dx, dy), (0, 1));
}

#[test]
fn monster_step_adjacent_is_attack_range() {
    // At (5,4) the distance is 1 (squared 1), below the engine's threshold
    // of 2 (squared 4): the monster attacks instead of moving.
    let m = Unit::orc(5, 4, 1);
    let (d2, dx, dy) = m.monster_step(&Coordinates { x: 5, y: 5 });
    assert_eq!(d2, 1);
    assert_eq!((dx, dy), (0, 1));
    assert!(d2 < 4);
}

#[test]
fn monster_step_diagonals() {
    let m = Unit::orc(0, 0, 1);
    let (d2, dx, dy) = m.monster_step(&Coordinates { x: 3, y: 4 });
    assert_eq!(d2, 25);
    assert_eq!((dx, dy), (1, 1));

    let (d2, dx, dy) = m.monster_step(&Coordinates { x: 1, y: 5 });
    assert_eq!(d2, 26);
    assert_eq!((dx, dy), (0, 1));

    let (d2, dx, dy) = m.monster_step(&Coordinates { x: -4, y: 0 });
    assert_eq!(d2, 16);
    assert_eq!((dx, dy), (-1, 0));
}

#[test]
fn monster_step_on_same_cell() {
    let m = Unit::orc(2, 2, 1);
    let (d2, dx, dy) = m.monster_step(&Coordinates { x: 2, y: 2 });
    assert_eq!(d2, 0);
    assert_eq!((dx, dy), (0, 0));
}

#[test]
fn coordinates_equality() {
    let a = Coordinates { x: 1, y: 2 };
    let b = Coordinates { x: 1, y: 2 };
    let c = Coordinates { x: 2, y: 1 };
    assert!(a.is_equal(&b));
    assert!(!a.is_equal(&c));
}
