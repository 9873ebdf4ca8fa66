//! Neighbours by geometry: the positions around a cell at which the grid has a
//! cell.
use vstd::prelude::*;
use crate::cell::GOLCellRef;
use crate::counting::lemma_alive_adjacent_is_alive_around;
use crate::grid::Grid;
use crate::laws::lemma_adjacent_positions_are_the_cells_around;

verus! {

impl Grid {
    /// The position `r`, `c` as a list: of one entry where the grid has a cell
    /// there, of none where it has not.
    pub open spec fn kept(&self, r: int, c: int) -> Seq<GOLCellRef> {
        if self.in_bounds(r, c) {
            seq![GOLCellRef { row: r as usize, col: c as usize }]
        } else {
            Seq::empty()
        }
    }

    /// The in-bounds positions of column `c` in the rows from `r - 1` to
    /// `r + 1`, from the row above to the row below; the middle one only
    /// where `with_middle` says so.
    pub open spec fn kept_in_column(&self, r: int, c: int, with_middle: bool) -> Seq<GOLCellRef> {
        self.kept(r - 1, c) + (if with_middle {
            self.kept(r, c)
        } else {
            Seq::empty()
        }) + self.kept(r + 1, c)
    }

    /// The in-bounds positions among the eight around `r`, `c`, column by
    /// column from the left and, within a column, from the row above to the
    /// row below. A position outside the grid is left out; nothing takes its
    /// place.
    pub open spec fn adjacent_positions(&self, r: int, c: int) -> Seq<GOLCellRef> {
        self.kept_in_column(r, c - 1, true) + self.kept_in_column(r, c, false)
            + self.kept_in_column(r, c + 1, true)
    }

    /// The number of live cells around `r`, `c`.
    pub open spec fn alive_adjacent_at(&self, r: int, c: int) -> nat {
        self.alive_among(self.adjacent_positions(r, c))
    }

    /// Appends the position `row`, `col` to `found` where row `row` reaches
    /// as far as column `col`.
    fn push_if_in_row(&self, row: usize, col: usize, found: &mut Vec<GOLCellRef>)
        requires
            row < self.rows(),
        ensures
            final(found)@ == old(found)@ + self.kept(row as int, col as int),
    {
        if col < self.cells[row].len() {
            found.push(GOLCellRef { row, col });
        }
        proof {
            assert(final(found)@ =~= old(found)@ + self.kept(row as int, col as int));
        }
    }

    /// Appends the in-bounds positions of column `col` in the rows around
    /// `row`, and `row` itself where `with_middle` says so.
    fn push_column(&self, row: usize, col: usize, with_middle: bool, found: &mut Vec<GOLCellRef>)
        requires
            row < self.rows(),
        ensures
            final(found)@ == old(found)@ + self.kept_in_column(row as int, col as int, with_middle),
    {
        let ghost before = found@;
        if row > 0 {
            self.push_if_in_row(row - 1, col, found);
        }
        assert(found@ =~= before + self.kept(row - 1, col as int));
        if with_middle {
            self.push_if_in_row(row, col, found);
        }
        let ghost middle = found@;
        if row < self.cells.len() - 1 {
            self.push_if_in_row(row + 1, col, found);
        }
        assert(found@ =~= middle + self.kept(row + 1, col as int));
        assert(found@ =~= before + self.kept_in_column(row as int, col as int, with_middle));
    }

    /// The neighbours of the cell at `row`, `col`, found from the geometry of
    /// the grid.
    pub fn adjacent(&self, row: usize, col: usize) -> (found: Vec<GOLCellRef>)
        requires
            self.in_bounds(row as int, col as int),
        ensures
            found@ == self.adjacent_positions(row as int, col as int),
            found@.len() <= 8,
    {
        proof {
            assert(self.row_len(row as int) == self.cells[row as int].len());
            lemma_adjacent_positions_are_the_cells_around(*self, row as int, col as int);
        }
        let mut found: Vec<GOLCellRef> = Vec::new();
        if col > 0 {
            self.push_column(row, col - 1, true, &mut found);
        }
        assert(found@ =~= self.kept_in_column(row as int, col - 1, true));
        self.push_column(row, col, false, &mut found);
        self.push_column(row, col + 1, true, &mut found);
        found
    }

    /// The number of live cells around the cell at `row`, `col`.
    pub fn alive_adjacent(&self, row: usize, col: usize) -> (count: usize)
        requires
            self.in_bounds(row as int, col as int),
        ensures
            count == self.alive_adjacent_at(row as int, col as int),
            count <= 8,
    {
        proof {
            lemma_alive_adjacent_is_alive_around(*self, row as int, col as int);
        }
        let found = self.adjacent(row, col);
        self.count_alive(&found)
    }
}

/// The in-bounds positions around a cell depend on the shape of the grid
/// alone.
pub proof fn lemma_adjacent_positions_by_shape(a: Grid, b: Grid, r: int, c: int)
    requires
        a.same_shape(b),
    ensures
        a.adjacent_positions(r, c) == b.adjacent_positions(r, c),
{
    assert forall|i: int, j: int| a.in_bounds(i, j) == b.in_bounds(i, j) by {
        if 0 <= i < a.rows() {
            assert(a.row_len(i) == b.row_len(i));
        }
    }
}

} // verus!
