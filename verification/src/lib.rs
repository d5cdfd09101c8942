//! Conway's Game of Life on a fixed-size torus.
//!
//! [`Universe`] owns a row-major buffer of [`Cell`]s and advances it one
//! generation at a time. Every operation is specified against [`grid::Grid`],
//! the mathematical model of a universe.

pub mod cell;
pub mod grid;
pub mod laws;
pub mod universe;

pub use crate::cell::Cell;
pub use crate::universe::Universe;
