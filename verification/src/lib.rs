//! Homestead game rules: crops and plot persistence, the material inventory,
//! forging recipes, carve loot, fishing feedback, the forest map and dungeon
//! floor layout.

pub mod dungeon;
pub mod exploration;
pub mod farming;
pub mod fishing;
pub mod forest;
pub mod forging;
pub mod items;
pub mod loadout;
pub mod rng;
pub mod text;
