//! Simulation core of a grid arcade puzzle: enemies converge on a central
//! zone from the four edges of the field, and the player clears them by
//! colour along a line of sight.

pub mod geometry;
pub mod grid;
pub mod field;
pub mod spawn;
pub mod random;
pub mod score;
pub mod player;
pub mod engine;
pub mod events;
