//! A falling-sand cellular automaton on a square grid of cells.
//!
//! `model` states the automaton over mathematical sequences, `sand` holds the
//! executable grid, `laws` proves what every step of the automaton keeps, and
//! `render` turns a grid into rows of symbols.
use vstd::prelude::*;

pub mod laws;
pub mod model;
pub mod render;
pub mod sand;

verus! {

/// Side length of the square sand grid.
pub const NELEMENTS: usize = 30;

} // verus!
