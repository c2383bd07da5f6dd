//! A verified engine for Conway's Game of Life on a toroidal grid.
//!
//! The grid is a row-major vector of binary cells; each generation is
//! computed from an immutable snapshot of the previous one via the
//! classic birth/survival rule over the eight wrap-around neighbours.

pub mod cell;
pub mod laws;
pub mod render;
pub mod rules;
pub mod universe;
