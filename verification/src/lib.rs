//! Conway's Game of Life on a finite grid whose cells carry explicit neighbour
//! lists.
//!
//! A [`Grid`] owns its cells row by row; rows need not have equal lengths. Each
//! [`GOLCell`] holds its [`State`] and a list of [`GOLCellRef`]s, the
//! coordinates of the cells it regards as neighbours. The list is filled once,
//! by the wiring pass, with the in-bounds positions among the eight that
//! surround the cell. [`Grid::step`] advances the whole grid by one generation
//! from the stored lists; [`Grid::step_on_demand`] does the same from the
//! geometry alone.
pub mod adjacency;
pub mod cell;
pub mod counting;
pub mod grid;
pub mod laws;
pub mod patterns;
pub mod state;
pub mod step;
pub mod wiring;

pub use crate::cell::GOLCell;
pub use crate::cell::GOLCellRef;
pub use crate::grid::Grid;
pub use crate::state::State;
pub use crate::wiring::populate_neighbors;
pub use crate::wiring::populate_neighbors_from_grid_for_cell_at;
