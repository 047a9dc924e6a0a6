//! Conway's Game of Life on a fixed-size toroidal grid.
//!
//! The crate provides the simulation core: a double-buffered grid store, the
//! canonical transition rule, toroidal neighbor addressing, and two execution
//! strategies for the same state-transition function — a cell-by-cell pass in
//! row-major order and a data-parallel map over the flat index space, as a
//! compute kernel would run it. Rendering and input belong to the caller.

pub mod grid;
pub mod rule;
pub mod step;
