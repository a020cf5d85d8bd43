//! Core of a turn-based dungeon simulation: procedural generation of a
//! connected room-and-corridor grid, a lazily recomputed field-of-view model
//! over that grid, and a deterministic turn-resolution engine.

pub mod generation;
pub mod grid;
pub mod map;
pub mod num;
pub mod rng;
pub mod room;
pub mod tile;
pub mod unit;
pub mod visibility;

pub use generation::{
    GeneratedDungeon, MAX_ROOMS, MAX_ROOM_MONSTERS, PLACEMENT_ATTEMPTS, ROOM_MAX_SIZE,
    ROOM_MIN_SIZE,
};
pub use grid::TileGrid;
pub use map::{tile_presentation, DungeonMap, TilePresentation, TORCH_RADIUS};
pub use rng::{Lcg, RandomSource, ThreadRandom};
pub use room::Room;
pub use tile::Tile;
pub use unit::{
    AttackOutcome, Coordinates, Rgb, Unit, UnitActions, UnitStats, UserActions, AI,
};
pub use visibility::VisibilityEngine;
