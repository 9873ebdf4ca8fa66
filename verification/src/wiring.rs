//! The wiring pass, which fills the neighbour lists from the geometry of the
//! grid before the first step.
use vstd::prelude::*;
use crate::cell::GOLCellRef;
use crate::adjacency::lemma_adjacent_positions_by_shape;
use crate::grid::lemma_same_states_same_view;
use crate::grid::Grid;

verus! {

impl Grid {
    /// No cell has a neighbour yet.
    pub open spec fn is_unwired(&self) -> bool {
        forall|r: int, c: int|
            self.in_bounds(r, c) ==> #[trigger] self.neighbors_at(r, c) == Seq::<
                GOLCellRef,
            >::empty()
    }

    /// Every cell lists exactly the in-bounds positions around it, each once
    /// and in the order of [`Grid::adjacent_positions`].
    pub open spec fn is_wired(&self) -> bool {
        forall|r: int, c: int|
            self.in_bounds(r, c) ==> #[trigger] self.neighbors_at(r, c) == self.adjacent_positions(
                r,
                c,
            )
    }
}

/// Appends to the neighbour list of the cell at `row`, `col` the in-bounds
/// positions around it. The states, and the lists of all other cells, stay as
/// they are.
pub fn populate_neighbors_from_grid_for_cell_at(grid: &mut Grid, row: usize, col: usize)
    requires
        old(grid).in_bounds(row as int, col as int),
    ensures
        final(grid).same_shape(*old(grid)),
        final(grid).same_states(*old(grid)),
        final(grid)@ == old(grid)@,
        forall|r: int, c: int|
            old(grid).in_bounds(r, c) ==> (#[trigger] final(grid).neighbors_at(r, c)) == (if r
                == row && c == col {
                old(grid).neighbors_at(r, c) + old(grid).adjacent_positions(r, c)
            } else {
                old(grid).neighbors_at(r, c)
            }),
{
    let ghost pre = *grid;
    let found = grid.adjacent(row, col);
    let mut k: usize = 0;
    while k < found.len()
        invariant
            k <= found@.len(),
            grid.same_shape(pre),
            grid.same_states(pre),
            pre.in_bounds(row as int, col as int),
            forall|r: int, c: int|
                grid.in_bounds(r, c) ==> (#[trigger] grid.neighbors_at(r, c)) == (if r == row && c
                    == col {
                    pre.neighbors_at(r, c) + found@.take(k as int)
                } else {
                    pre.neighbors_at(r, c)
                }),
        decreases found@.len() - k,
    {
        let ghost before = *grid;
        assert(grid.row_len(row as int) == pre.row_len(row as int));
        grid.cells[row][col].add_neighbor(found[k]);
        proof {
            assert forall|r: int| 0 <= r < grid.rows() implies #[trigger] grid.row_len(r)
                == before.row_len(r) by {}
            assert forall|r: int, c: int| grid.in_bounds(r, c) implies #[trigger] grid.state_at(r, c)
                == before.state_at(r, c) by {}
            assert forall|r: int, c: int|
                grid.in_bounds(r, c) && (r != row || c != col) implies #[trigger] grid.neighbors_at(
                r,
                c,
            ) == before.neighbors_at(r, c) by {}
            assert(found@.take(k + 1) =~= found@.take(k as int).push(found@[k as int]));
            assert(before.neighbors_at(row as int, col as int) == pre.neighbors_at(
                row as int,
                col as int,
            ) + found@.take(k as int));
            assert(grid.neighbors_at(row as int, col as int) == before.neighbors_at(
                row as int,
                col as int,
            ).push(found@[k as int]));
        }
        k = k + 1;
    }
    proof {
        assert(found@.take(k as int) =~= found@);
        lemma_same_states_same_view(*grid, pre);
    }
}

/// The wiring pass: appends to the neighbour list of every cell the in-bounds
/// positions around it. On a grid whose cells had no neighbours, every cell
/// then lists exactly the cells around it.
pub fn populate_neighbors(grid: &mut Grid)
    ensures
        final(grid).same_shape(*old(grid)),
        final(grid).same_states(*old(grid)),
        final(grid)@ == old(grid)@,
        forall|r: int, c: int|
            old(grid).in_bounds(r, c) ==> (#[trigger] final(grid).neighbors_at(r, c)) == old(
                grid,
            ).neighbors_at(r, c) + old(grid).adjacent_positions(r, c),
        old(grid).is_unwired() ==> final(grid).is_wired(),
{
    let ghost pre = *grid;
    let mut i: usize = 0;
    while i < grid.cells.len()
        invariant
            grid.same_shape(pre),
            grid.same_states(pre),
            forall|r: int, c: int|
                grid.in_bounds(r, c) ==> (#[trigger] grid.neighbors_at(r, c)) == (if r < i {
                    pre.neighbors_at(r, c) + pre.adjacent_positions(r, c)
                } else {
                    pre.neighbors_at(r, c)
                }),
        decreases grid.rows() - i,
    {
        let mut j: usize = 0;
        while j < grid.cells[i].len()
            invariant
                i < grid.rows(),
                grid.same_shape(pre),
                grid.same_states(pre),
                forall|r: int, c: int|
                    grid.in_bounds(r, c) ==> (#[trigger] grid.neighbors_at(r, c)) == (if r < i || (r
                        == i && c < j) {
                        pre.neighbors_at(r, c) + pre.adjacent_positions(r, c)
                    } else {
                        pre.neighbors_at(r, c)
                    }),
            decreases grid.row_len(i as int) - j,
        {
            let ghost before = *grid;
            populate_neighbors_from_grid_for_cell_at(grid, i, j);
            proof {
                lemma_adjacent_positions_by_shape(before, pre, i as int, j as int);
                assert forall|r: int| 0 <= r < grid.rows() implies #[trigger] grid.row_len(r)
                    == pre.row_len(r) by {
                    assert(before.row_len(r) == pre.row_len(r));
                }
                assert forall|r: int, c: int| grid.in_bounds(r, c) implies #[trigger] grid.state_at(
                    r,
                    c,
                ) == pre.state_at(r, c) by {
                    assert(before.state_at(r, c) == pre.state_at(r, c));
                }
            }
            j = j + 1;
        }
        i = i + 1;
    }
    proof {
        lemma_same_states_same_view(*grid, pre);
        if pre.is_unwired() {
            assert forall|r: int, c: int| grid.in_bounds(r, c) implies #[trigger] grid.neighbors_at(
                r,
                c,
            ) == grid.adjacent_positions(r, c) by {
                lemma_adjacent_positions_by_shape(*grid, pre, r, c);
                assert(pre.neighbors_at(r, c) + pre.adjacent_positions(r, c)
                    =~= pre.adjacent_positions(r, c));
            }
        }
    }
}

} // verus!
