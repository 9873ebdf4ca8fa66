//! The grid, its mathematical model, and what can be asked of it.
use vstd::prelude::*;
use crate::cell::GOLCell;
use crate::cell::GOLCellRef;
use crate::state::State;

verus! {

/// A grid of cells, stored row by row. Rows may differ in length.
pub struct Grid {
    pub cells: Vec<Vec<GOLCell>>,
}

impl View for Grid {
    type V = Seq<Seq<State>>;

    /// The states of the current generation, row by row.
    open spec fn view(&self) -> Seq<Seq<State>> {
        Seq::new(
            self.cells@.len(),
            |r: int| Seq::new(self.cells@[r]@.len(), |c: int| self.cells@[r]@[c].state),
        )
    }
}

impl Grid {
    /// The number of rows.
    pub open spec fn rows(&self) -> nat {
        self.cells@.len()
    }

    /// The length of row `r`.
    pub open spec fn row_len(&self, r: int) -> nat {
        self.cells@[r]@.len()
    }

    /// Whether the grid has a cell at row `r`, column `c`.
    pub open spec fn in_bounds(&self, r: int, c: int) -> bool {
        0 <= r < self.rows() && 0 <= c < self.row_len(r)
    }

    /// The state of the cell at an in-bounds position.
    pub open spec fn state_at(&self, r: int, c: int) -> State {
        self.cells@[r]@[c].state
    }

    /// The neighbour list of the cell at an in-bounds position.
    pub open spec fn neighbors_at(&self, r: int, c: int) -> Seq<GOLCellRef> {
        self.cells@[r]@[c].neighbors@
    }

    /// Whether the grid has a cell at row `r`, column `c`, and that cell is
    /// alive.
    pub open spec fn alive_at(&self, r: int, c: int) -> bool {
        self.in_bounds(r, c) && self.state_at(r, c) == State::Alive
    }

    /// How many entries of `refs` name a live cell of this grid. An entry that
    /// occurs twice counts twice; one that names no cell counts for nothing.
    pub open spec fn alive_among(&self, refs: Seq<GOLCellRef>) -> nat
        decreases refs.len(),
    {
        if refs.len() == 0 {
            0
        } else {
            let last = refs.last();
            self.alive_among(refs.drop_last()) + if self.alive_at(last.row as int, last.col as int) {
                1nat
            } else {
                0nat
            }
        }
    }

    /// The number of live cells in the neighbour list of the cell at an
    /// in-bounds position.
    pub open spec fn alive_neighbors_at(&self, r: int, c: int) -> nat {
        self.alive_among(self.neighbors_at(r, c))
    }

    /// Both grids have the same number of rows, and each row the same length.
    pub open spec fn same_shape(&self, other: Grid) -> bool {
        &&& self.rows() == other.rows()
        &&& forall|r: int| 0 <= r < self.rows() ==> #[trigger] self.row_len(r) == other.row_len(r)
    }

    /// Every cell of `self` has the neighbour list that the cell at the same
    /// position of `other` has.
    pub open spec fn same_wiring(&self, other: Grid) -> bool {
        forall|r: int, c: int|
            self.in_bounds(r, c) ==> #[trigger] self.neighbors_at(r, c) == other.neighbors_at(r, c)
    }

    /// The cells of both grids are in the same states.
    pub open spec fn same_states(&self, other: Grid) -> bool {
        forall|r: int, c: int|
            self.in_bounds(r, c) ==> #[trigger] self.state_at(r, c) == other.state_at(r, c)
    }

    /// A grid made of the given rows of cells.
    pub fn with_cells(pre_made_cells: Vec<Vec<GOLCell>>) -> (grid: Self)
        ensures
            grid.cells == pre_made_cells,
    {
        Grid { cells: pre_made_cells }
    }

    /// A grid without rows.
    pub fn new() -> (grid: Self)
        ensures
            grid.cells@ == Seq::<Vec<GOLCell>>::empty(),
    {
        Grid { cells: Vec::new() }
    }

    /// The stored neighbour list of the cell at `row`, `col`.
    pub fn get_neighbors(&self, row: usize, col: usize) -> (neighbors: &Vec<GOLCellRef>)
        requires
            self.in_bounds(row as int, col as int),
        ensures
            neighbors@ == self.neighbors_at(row as int, col as int),
    {
        &self.cells[row][col].neighbors
    }

    /// Whether there is a live cell at `row`, `col`. A position outside the
    /// grid holds no cell, so none that is alive.
    pub fn is_alive(&self, row: usize, col: usize) -> (alive: bool)
        ensures
            alive == self.alive_at(row as int, col as int),
    {
        if row < self.cells.len() && col < self.cells[row].len() {
            self.cells[row][col].state == State::Alive
        } else {
            false
        }
    }

    /// Counts the entries of `refs` that name a live cell.
    pub fn count_alive(&self, refs: &Vec<GOLCellRef>) -> (count: usize)
        ensures
            count == self.alive_among(refs@),
    {
        let mut count: usize = 0;
        let mut k: usize = 0;
        while k < refs.len()
            invariant
                k <= refs@.len(),
                count <= k,
                count == self.alive_among(refs@.take(k as int)),
            decreases refs@.len() - k,
        {
            let target = refs[k];
            proof {
                assert(refs@.take(k + 1).drop_last() =~= refs@.take(k as int));
            }
            if self.is_alive(target.row, target.col) {
                count = count + 1;
            }
            k = k + 1;
        }
        proof {
            assert(refs@.take(k as int) =~= refs@);
        }
        count
    }

    /// The number of live cells in the stored neighbour list of the cell at
    /// `row`, `col`.
    pub fn alive_neighbors(&self, row: usize, col: usize) -> (count: usize)
        requires
            self.in_bounds(row as int, col as int),
        ensures
            count == self.alive_neighbors_at(row as int, col as int),
    {
        self.count_alive(self.get_neighbors(row, col))
    }
}

/// Two grids of one shape whose cells are in the same states have the same
/// view.
pub proof fn lemma_same_states_same_view(a: Grid, b: Grid)
    requires
        a.same_shape(b),
        a.same_states(b),
    ensures
        a@ == b@,
{
    assert forall|r: int| 0 <= r < a.rows() implies #[trigger] a@[r] =~= b@[r] by {
        assert(a.row_len(r) == b.row_len(r));
        assert forall|c: int| 0 <= c < a.row_len(r) implies (#[trigger] a@[r][c]) == b@[r][c] by {
            assert(a.state_at(r, c) == b.state_at(r, c));
        }
    }
    assert(a@ =~= b@);
}

impl Default for Grid {
    fn default() -> (grid: Self)
        ensures
            grid.cells@ == Seq::<Vec<GOLCell>>::empty(),
    {
        Grid::new()
    }
}

} // verus!
