//! A verified Game of Life engine on a toroidal grid.
//!
//! The universe is a dense, bit-packed 2D grid of cells, each alive or dead,
//! advanced one generation at a time under the classic B3/S23 rule with
//! wrap-around (toroidal) adjacency.

pub mod bitset;
pub mod rules;
pub mod universe;

pub use universe::{GridModel, Universe, UniverseError, cleared, DEFAULT_HEIGHT, DEFAULT_WIDTH};
pub use rules::{
    wrap, wrapped_index, count_alive, nbr_term, live_neighbors, next_cell, next_grid,
    seed_alive, dead_grid, set_live,
};
