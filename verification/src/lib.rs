//! Core of a turn-based dungeon crawler: a procedurally generated tile map,
//! a turn-state machine, and an entity/component world driven by
//! phase-scoped systems (input, player turn, monster turn).
#![allow(unused_imports)]
use vstd::prelude::*;

pub mod camera;
pub mod components;
pub mod game;
pub mod geometry;
pub mod map;
pub mod map_builder;
pub mod player;
pub mod rng;
pub mod scheduler;
pub mod spawner;
pub mod systems;
pub mod turn_state;
pub mod world;

verus! {

/// Width of the map grid in tiles.
pub const SCREEN_WIDTH: i32 = 80;

/// Height of the map grid in tiles.
pub const SCREEN_HEIGHT: i32 = 50;

/// Width of the camera viewport in tiles (half the grid width).
pub const DISPLAY_WIDTH: i32 = 40;

/// Height of the camera viewport in tiles (half the grid height).
pub const DISPLAY_HEIGHT: i32 = 25;

} // verus!
