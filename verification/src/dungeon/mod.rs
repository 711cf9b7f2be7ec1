pub mod boss;
pub mod carve;
pub mod carve_loot;
pub mod enemy;
pub mod floor1;
pub mod generation;
pub mod jump;
pub mod level;
