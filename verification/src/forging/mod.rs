pub mod recipes;
pub mod recipe;
pub mod craft;
