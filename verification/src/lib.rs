//! Conway's Game of Life on a fixed-size toroidal grid.
//!
//! The crate is organised around a mathematical model, [`grid::Grid`], on
//! which the neighbour count and the generation rule are defined, and an
//! executable [`universe::Universe`] whose operations are proved to compute
//! exactly what the model says.

pub mod cell;
pub mod grid;
pub mod universe;
pub mod patterns;

pub use crate::cell::Cell;
pub use crate::grid::Grid;
pub use crate::universe::{Universe, UniverseError, HEIGHT, WIDTH};
