//! Counting the live cells around a position without going through a list.
use vstd::prelude::*;
use crate::cell::GOLCellRef;
use crate::grid::Grid;

verus! {

impl Grid {
    /// One where the grid has a live cell at `r`, `c`, zero elsewhere.
    pub open spec fn alive_count_at(&self, r: int, c: int) -> nat {
        if self.alive_at(r, c) {
            1
        } else {
            0
        }
    }

    /// The number of live cells among the eight positions around `r`, `c`.
    pub open spec fn alive_around(&self, r: int, c: int) -> nat {
        self.alive_count_at(r - 1, c - 1) + self.alive_count_at(r, c - 1) + self.alive_count_at(
            r + 1,
            c - 1,
        ) + self.alive_count_at(r - 1, c) + self.alive_count_at(r + 1, c) + self.alive_count_at(
            r - 1,
            c + 1,
        ) + self.alive_count_at(r, c + 1) + self.alive_count_at(r + 1, c + 1)
    }
}

/// The coordinates of a cell fit the integers that a reference holds.
pub proof fn lemma_positions_fit(g: Grid, r: int, c: int)
    requires
        g.in_bounds(r, c),
    ensures
        r <= usize::MAX,
        c <= usize::MAX,
{
    assert(g.cells@.len() == g.cells.len());
    assert(g.cells@[r]@.len() == g.cells@[r].len());
}

/// A reference names the cell whose coordinates it holds.
pub proof fn lemma_kept_names_its_position(g: Grid, r: int, c: int)
    requires
        g.in_bounds(r, c),
    ensures
        g.kept(r, c).len() == 1,
        g.kept(r, c)[0].row == r,
        g.kept(r, c)[0].col == c,
{
    lemma_positions_fit(g, r, c);
}

/// Counting over two lists joined is counting over each and adding up.
pub proof fn lemma_alive_among_concat(g: Grid, a: Seq<GOLCellRef>, b: Seq<GOLCellRef>)
    ensures
        g.alive_among(a + b) == g.alive_among(a) + g.alive_among(b),
    decreases b.len(),
{
    if b.len() == 0 {
        assert(a + b =~= a);
    } else {
        assert((a + b).drop_last() =~= a + b.drop_last());
        lemma_alive_among_concat(g, a, b.drop_last());
    }
}

/// The one position that may be kept counts as the cell there does.
pub proof fn lemma_alive_among_kept(g: Grid, r: int, c: int)
    ensures
        g.alive_among(g.kept(r, c)) == g.alive_count_at(r, c),
{
    if g.in_bounds(r, c) {
        lemma_kept_names_its_position(g, r, c);
        assert(g.kept(r, c).drop_last() =~= Seq::<GOLCellRef>::empty());
        reveal_with_fuel(Grid::alive_among, 2);
    }
}

/// The positions kept in one column count as the cells there do.
pub proof fn lemma_alive_among_column(g: Grid, r: int, c: int, with_middle: bool)
    ensures
        g.alive_among(g.kept_in_column(r, c, with_middle)) == g.alive_count_at(r - 1, c) + (
        if with_middle {
            g.alive_count_at(r, c)
        } else {
            0
        }) + g.alive_count_at(r + 1, c),
{
    let above = g.kept(r - 1, c);
    let middle = if with_middle {
        g.kept(r, c)
    } else {
        Seq::empty()
    };
    let below = g.kept(r + 1, c);
    lemma_alive_among_concat(g, above + middle, below);
    lemma_alive_among_concat(g, above, middle);
    lemma_alive_among_kept(g, r - 1, c);
    lemma_alive_among_kept(g, r, c);
    lemma_alive_among_kept(g, r + 1, c);
}

/// The live cells in the list of in-bounds positions around `r`, `c` are as
/// many as the live cells among the eight positions around it.
pub proof fn lemma_alive_adjacent_is_alive_around(g: Grid, r: int, c: int)
    ensures
        g.alive_adjacent_at(r, c) == g.alive_around(r, c),
{
    let left = g.kept_in_column(r, c - 1, true);
    let middle = g.kept_in_column(r, c, false);
    let right = g.kept_in_column(r, c + 1, true);
    lemma_alive_among_concat(g, left + middle, right);
    lemma_alive_among_concat(g, left, middle);
    lemma_alive_among_column(g, r, c - 1, true);
    lemma_alive_among_column(g, r, c, false);
    lemma_alive_among_column(g, r, c + 1, true);
}

} // verus!
