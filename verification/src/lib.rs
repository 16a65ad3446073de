//! The simulation core of a snake game played in a three-dimensional grid.
//!
//! A [`board::Board`] owns the grid, the snake and the apple. One call of
//! `update` is one tick of the game; `matrices` derives what a renderer
//! needs to draw the board. Every function is verified against the
//! mathematical model of the board, [`model::BoardView`], and what holds of
//! every game is stated and proved in [`laws`].
//!
//! Nothing here is floating point: points of render space are held in half
//! units and rotations in quarter turns, both exact.

pub mod vector;
pub mod direction;
pub mod grid;
pub mod random;
pub mod shadow;
pub mod model;
pub mod board;
pub mod validity;
pub mod settings;
pub mod laws;
