//! Conway's Game of Life on a finite rectangular grid whose edges wrap around.
//!
//! The engine is a single value, [`Universe`], that owns the grid's dimensions
//! and its cells. A driver builds one, shapes and seeds it, and then advances it
//! one generation at a time with [`Universe::tick`], reading the cells between
//! steps.

pub mod cell;
pub mod error;
pub mod grid;
pub mod patterns;
pub mod universe;

pub use cell::Cell;
pub use error::OutOfBounds;
pub use grid::Grid;
pub use universe::Universe;
