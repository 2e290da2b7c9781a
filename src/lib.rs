//! A finite, non-wrapping Game of Life: the grid, the transition rule and
//! the loader of the textual grid format.
pub mod engine;
pub mod grid;
pub mod laws;
pub mod load;
pub mod render;

pub use engine::{advance, count_neighbours, next_state, update_grid};
pub use grid::{Area, GridError, Point, State};
pub use load::load_area;
pub use render::render;
pub use laws::{
    lemma_advance_keeps_bounds, lemma_all_dead_is_fixed, lemma_other_counts_die,
    lemma_outside_is_dead, lemma_three_neighbours_live, lemma_two_neighbours_keep,
};
