//! Simulation core of a castle-fight strategy game: two teams, each with a
//! castle and buildings that send units down a path towards the other team,
//! where they fight whom they meet.
//!
//! The match advances in ticks. A tick runs every system once, in a fixed
//! order: perception, targeting, movement, combat, lifecycle, spawners.
//! Everything is computed on integers: lengths in sub-units of a world unit,
//! times in microseconds. The same inputs give the same match.
//!
//! [`world::WorldState`] is the model of a match and [`world::World`] its
//! storage; [`game`] holds the tick, and [`laws`] what is proved of it.

pub mod attack;
pub mod building_spawning;
pub mod buildings;
pub mod entity;
pub mod game;
pub mod geometry;
pub mod grid_traits;
pub mod health;
pub mod inspector_plugin;
pub mod laws;
pub mod level;
pub mod load_factions;
pub mod movement;
pub mod resources;
pub mod spawning;
pub mod systems;
pub mod teams;
pub mod unit_spawning;
pub mod units;
pub mod vision;
pub mod waypoints;
pub mod world;
