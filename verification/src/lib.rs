//! Conway's Game of Life: a sparse-set transition engine, the interactive
//! session state machine that drives it, and the parsing and layout rules for
//! the decorative splash asset. Terminal I/O lives outside this crate.

pub mod drawing;
pub mod life_iteration;
pub mod render;
pub mod session;
