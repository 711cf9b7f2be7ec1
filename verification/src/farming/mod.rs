pub mod actions;
pub mod crops;
pub mod hotbar;
pub mod hud;
pub mod persist;
pub mod plots;
pub mod tools;
pub mod use_tool;
