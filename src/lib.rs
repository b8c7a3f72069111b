//! A toroidal cellular automaton: a fixed-size grid of live and dead cells
//! that advances one generation at a time under the birth/survival rule,
//! together with the pure decisions of the loop that drives it.

pub mod grid;
pub mod laws;
pub mod render;
pub mod sim;
