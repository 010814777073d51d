//! Simulation core of a turn-based dungeon crawler: map generation, movement,
//! combat, items, monster behaviour and the per-turn bookkeeping around them.

pub mod ai;
pub mod carve;
pub mod color;
pub mod combat;
pub mod entity;
pub mod fov;
pub mod geometry;
pub mod grid;
pub mod items;
pub mod mapgen;
pub mod movement;
pub mod reach;
pub mod rng;
pub mod spawn;
pub mod text;
pub mod turn;
pub mod view;
