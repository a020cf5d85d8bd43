use roguelike_core::generation::{h_v_tunnel, v_h_tunnel};
use roguelike_core::{tile_presentation, Coordinates, Room, Tile, TileGrid, TilePresentation};

#[test]
fn tile_constructors() {
    let e = Tile::empty();
    assert!(!e.is_blocked());
    assert!(!e.is_block_sight());
    assert!(!e.is_explored());

    let w = Tile::wall();
    assert!(w.is_blocked());
    assert!(w.is_block_sight());
    assert!(!w.is_explored());
}

#[test]
fn tile_explored_flag() {
    let mut t = Tile::wall();
    t.set_explored(true);
    assert!(t.is_explored());
    assert!(t.is_blocked());
    t.set_explored(false);
    assert!(!t.is_explored());
}

#[test]
fn grid_starts_as_walls() {
    let grid = TileGrid::new(8, 6);
    assert_eq!(grid.get_width(), 8);
    assert_eq!(grid.get_height(), 6);
    for x in 0..8 {
        for y in 0..6 {
            assert!(grid.get(x, y).unwrap().is_blocked());
        }
    }
}

#[test]
fn grid_rejects_out_of_range() {
    let mut grid = TileGrid::new(8, 6);
    assert!(grid.get(-1, 0).is_none());
    assert!(grid.get(0, -1).is_none());
    assert!(grid.get(8, 0).is_none());
    assert!(grid.get(0, 6).is_none());
    assert!(!grid.set(8, 0, Tile::empty()));
    assert!(!grid.set(-1, -1, Tile::empty()));
    assert!(grid.set(3, 3, Tile::empty()));
    assert!(!grid.get(3, 3).unwrap().is_blocked());
}

#[test]
fn room_fields_and_center() {
    let r = Room::new(2, 5, 2, 5);
    assert_eq!(r.left_x, 2);
    assert_eq!(r.right_x, 5);
    assert_eq!(r.bottom_y, 2);
    assert_eq!(r.top_y, 5);
    let c = r.get_center();
    assert!(c.is_equal(&Coordinates { x: 3, y: 3 }));

    // Ties round toward left/bottom.
    let even = Room::new(0, 5, 0, 5);
    let c = even.get_center();
    assert!(c.is_equal(&Coordinates { x: 2, y: 2 }));
}

#[test]
fn room_intersection_tie_breaks() {
    // Side-by-side rectangles sharing a bound: the inclusive room-placement
    // test counts them as overlapping, the strict tunnel test does not.
    let a = Room::new(0, 5, 0, 5);
    let b = Room::new(5, 10, 0, 5);
    assert!(a.intersects_with_as_rooms(&b));
    assert!(!a.intersects_with_as_tunnels(&b));

    let far = Room::new(7, 12, 0, 5);
    assert!(!a.intersects_with_as_rooms(&far));

    let overlapping = Room::new(3, 9, 3, 9);
    assert!(a.intersects_with_as_rooms(&overlapping));
    assert!(a.intersects_with_as_tunnels(&overlapping));
}

#[test]
fn room_fill_carves_interior_only() {
    let mut grid = TileGrid::new(12, 12);
    let room = Room::new(2, 7, 3, 8);
    room.fill(&mut grid);
    for x in 0..12 {
        for y in 0..12 {
            let inside = 2 <= x && x < 7 && 3 <= y && y < 8;
            assert_eq!(!grid.get(x, y).unwrap().is_blocked(), inside);
        }
    }
}

#[test]
fn horizontal_then_vertical_tunnel() {
    let mut grid = TileGrid::new(20, 20);
    let new_center = Coordinates { x: 3, y: 5 };
    let prev_center = Coordinates { x: 10, y: 5 };
    h_v_tunnel(&new_center, &prev_center, &mut grid);
    // The horizontal leg carves the row y = 5 from x = 3 up to (and not
    // including) x = 10.
    for x in 3..10 {
        assert!(!grid.get(x, 5).unwrap().is_blocked());
    }
    // The excluded endpoint column stays a wall (on a bare grid; in a real
    // dungeon it is the interior of the previously carved room).
    assert!(grid.get(10, 5).unwrap().is_blocked());
    assert!(grid.get(2, 5).unwrap().is_blocked());
}

#[test]
fn vertical_then_horizontal_tunnel_with_elbow() {
    let mut grid = TileGrid::new(20, 20);
    let new_center = Coordinates { x: 3, y: 12 };
    let prev_center = Coordinates { x: 10, y: 5 };
    v_h_tunnel(&new_center, &prev_center, &mut grid);
    // Vertical leg: column of the previous center, y from 5 up to 12.
    for y in 5..12 {
        assert!(!grid.get(10, y).unwrap().is_blocked());
    }
    // Horizontal leg: row of the new center, x from 3 up to 10, plus the
    // elbow cell that joins the two legs.
    for x in 3..10 {
        assert!(!grid.get(x, 12).unwrap().is_blocked());
    }
    assert!(!grid.get(10, 12).unwrap().is_blocked());
}

#[test]
fn presentation_states() {
    assert_eq!(tile_presentation(false, false, true), TilePresentation::Unseen);
    assert_eq!(tile_presentation(true, false, false), TilePresentation::Unseen);
    assert_eq!(tile_presentation(false, true, true), TilePresentation::RememberedWall);
    assert_eq!(tile_presentation(false, true, false), TilePresentation::RememberedFloor);
    assert_eq!(tile_presentation(true, true, true), TilePresentation::LitWall);
    assert_eq!(tile_presentation(true, true, false), TilePresentation::LitFloor);
}
