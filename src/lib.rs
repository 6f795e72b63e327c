//! A snake game's rules: a snake moves on a walled grid at a fixed pace,
//! turns without reversing, grows by eating fruit, and dies on hitting itself
//! or a wall. Drawing and input sampling are left to the caller.
pub mod geometry;
pub mod render;
pub mod state;
pub mod update;
