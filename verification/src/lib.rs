//! Conway's Game of Life on a torus, with the cells packed one per bit.
//!
//! [`Universe`] is the engine. Its contracts are stated over [`Grid`], the
//! mathematical picture of a generation, and the bit set that stores the cells
//! is reached through the specifications in [`bitset`]. What holds of every
//! grid is proved in [`laws`], and what the rule does to a few small patterns
//! in [`patterns`].

pub mod bitset;
pub mod grid;
pub mod laws;
pub mod patterns;
pub mod universe;

pub use grid::Grid;
pub use universe::{Universe, UniverseError};
