//! Cells and the references by which one cell names another.
use vstd::prelude::*;
use crate::state::State;

verus! {

/// Names a cell by its position in the grid that owns it.
///
/// A reference is only a pair of coordinates: it may name a position at which
/// the grid has no cell, and such a reference stands for no cell at all.
#[derive(Clone, Copy, Debug, PartialEq, Eq, Structural)]
pub struct GOLCellRef {
    pub row: usize,
    pub col: usize,
}

/// One cell: its state in the current generation and the cells it regards as
/// its neighbours, in the order in which they were added.
#[derive(Debug)]
pub struct GOLCell {
    pub state: State,
    pub neighbors: Vec<GOLCellRef>,
}

impl GOLCell {
    /// A cell in the given state that has no neighbours yet.
    pub fn new(state: State) -> (cell: Self)
        ensures
            cell.state == state,
            cell.neighbors@ == Seq::<GOLCellRef>::empty(),
    {
        GOLCell { state, neighbors: Vec::new() }
    }

    /// Appends `cell` to the neighbour list. Nothing is checked: a reference
    /// added twice is listed, and later counted, twice.
    pub fn add_neighbor(&mut self, cell: GOLCellRef)
        ensures
            final(self).state == old(self).state,
            final(self).neighbors@ == old(self).neighbors@.push(cell),
    {
        self.neighbors.push(cell)
    }

    /// The character that stands for this cell when a grid is drawn.
    pub fn glyph(&self) -> (c: char)
        ensures
            c == self.state.glyph_of(),
    {
        self.state.glyph()
    }
}

} // verus!
