//! Laws of the game: what holds of every grid and of every step.
use vstd::prelude::*;
use crate::cell::GOLCellRef;
use crate::counting::lemma_alive_adjacent_is_alive_around;
use crate::counting::lemma_kept_names_its_position;
use crate::counting::lemma_positions_fit;
use crate::grid::Grid;
use crate::state::State;
use crate::adjacency::lemma_adjacent_positions_by_shape;
use crate::grid::lemma_same_states_same_view;

verus! {

/// Whether the position `i`, `j` is one of the eight around `r`, `c`.
pub open spec fn are_adjacent(r: int, c: int, i: int, j: int) -> bool {
    &&& r - 1 <= i <= r + 1
    &&& c - 1 <= j <= c + 1
    &&& (i != r || j != c)
}

impl Grid {
    /// The grid has `height` rows of `width` cells each.
    pub open spec fn is_rectangular(&self, height: nat, width: nat) -> bool {
        &&& self.rows() == height
        &&& forall|r: int| 0 <= r < height ==> #[trigger] self.row_len(r) == width
    }
}

/// A dead cell stays dead over a step unless exactly three of its listed
/// neighbours are alive.
pub proof fn lemma_dead_stays_dead_without_three(pre: Grid, post: Grid, r: int, c: int)
    requires
        post.is_successor_of(pre),
        pre.in_bounds(r, c),
        pre.state_at(r, c) == State::Dead,
        pre.alive_neighbors_at(r, c) != 3,
    ensures
        post.state_at(r, c) == State::Dead,
{
}

/// A live cell stays alive over a step where two or three of its listed
/// neighbours are alive, and dies with any other number.
pub proof fn lemma_alive_survives_with_two_or_three(pre: Grid, post: Grid, r: int, c: int)
    requires
        post.is_successor_of(pre),
        pre.in_bounds(r, c),
        pre.state_at(r, c) == State::Alive,
    ensures
        post.state_at(r, c) == (if pre.alive_neighbors_at(r, c) == 2 || pre.alive_neighbors_at(r, c)
            == 3 {
            State::Alive
        } else {
            State::Dead
        }),
{
}

/// A dead cell stays dead over a step by geometry unless exactly three of the
/// cells around it are alive.
pub proof fn lemma_dead_stays_dead_without_three_on_demand(pre: Grid, post: Grid, r: int, c: int)
    requires
        post.is_on_demand_successor_of(pre),
        pre.in_bounds(r, c),
        pre.state_at(r, c) == State::Dead,
        pre.alive_adjacent_at(r, c) != 3,
    ensures
        post.state_at(r, c) == State::Dead,
{
}

/// A live cell stays alive over a step by geometry where two or three of the
/// cells around it are alive, and dies with any other number.
pub proof fn lemma_alive_survives_with_two_or_three_on_demand(
    pre: Grid,
    post: Grid,
    r: int,
    c: int,
)
    requires
        post.is_on_demand_successor_of(pre),
        pre.in_bounds(r, c),
        pre.state_at(r, c) == State::Alive,
    ensures
        post.state_at(r, c) == (if pre.alive_adjacent_at(r, c) == 2 || pre.alive_adjacent_at(r, c)
            == 3 {
            State::Alive
        } else {
            State::Dead
        }),
{
}

/// What one column contributes to the positions around a cell: at most three
/// entries, or two without the middle one; each entry once; and exactly the
/// in-bounds positions of that column in the three rows, the middle row only
/// where `with_middle` says so.
proof fn lemma_column_positions(g: Grid, r: int, c: int, with_middle: bool)
    ensures
        g.kept_in_column(r, c, with_middle).len() == (if g.in_bounds(r - 1, c) {
            1nat
        } else {
            0nat
        }) + (if with_middle && g.in_bounds(r, c) {
            1nat
        } else {
            0nat
        }) + (if g.in_bounds(r + 1, c) {
            1nat
        } else {
            0nat
        }),
        g.kept_in_column(r, c, with_middle).no_duplicates(),
        forall|p: GOLCellRef|
            g.kept_in_column(r, c, with_middle).contains(p) <==> g.in_bounds(
                p.row as int,
                p.col as int,
            ) && p.col == c && r - 1 <= p.row <= r + 1 && (with_middle || p.row != r),
{
    let column = g.kept_in_column(r, c, with_middle);
    if g.in_bounds(r - 1, c) {
        lemma_kept_names_its_position(g, r - 1, c);
    }
    if g.in_bounds(r, c) {
        lemma_kept_names_its_position(g, r, c);
    }
    if g.in_bounds(r + 1, c) {
        lemma_kept_names_its_position(g, r + 1, c);
    }
    assert forall|p: GOLCellRef|
        g.in_bounds(p.row as int, p.col as int) && p.col == c && r - 1 <= p.row <= r + 1 && (
        with_middle || p.row != r) implies column.contains(p) by {
        let above: int = if g.in_bounds(r - 1, c) {
            1
        } else {
            0
        };
        let middle: int = if with_middle && g.in_bounds(r, c) {
            1
        } else {
            0
        };
        if p.row == r - 1 {
            assert(column[0] == p);
        } else if p.row == r {
            assert(column[above] == p);
        } else {
            assert(column[above + middle] == p);
        }
    }
}

/// The list of positions around `r`, `c` has at most eight entries, holds
/// none twice, and holds exactly the in-bounds positions among the eight
/// around `r`, `c`: its length is their number.
pub proof fn lemma_adjacent_positions_are_the_cells_around(g: Grid, r: int, c: int)
    ensures
        g.adjacent_positions(r, c).len() <= 8,
        g.adjacent_positions(r, c).no_duplicates(),
        forall|p: GOLCellRef|
            g.adjacent_positions(r, c).contains(p) <==> g.in_bounds(p.row as int, p.col as int)
                && are_adjacent(r, c, p.row as int, p.col as int),
{
    let left = g.kept_in_column(r, c - 1, true);
    let middle = g.kept_in_column(r, c, false);
    let right = g.kept_in_column(r, c + 1, true);
    lemma_column_positions(g, r, c - 1, true);
    lemma_column_positions(g, r, c, false);
    lemma_column_positions(g, r, c + 1, true);
    assert forall|i: int, j: int| 0 <= i < left.len() && 0 <= j < middle.len() implies left[i]
        != middle[j] by {
        assert(left.contains(left[i]));
        assert(middle.contains(middle[j]));
    }
    vstd::seq_lib::lemma_no_dup_in_concat(left, middle);
    assert forall|i: int, j: int| 0 <= i < (left + middle).len() && 0 <= j < right.len() implies (
    left + middle)[i] != right[j] by {
        assert(right.contains(right[j]));
        if i < left.len() {
            assert(left.contains(left[i]));
        } else {
            assert(middle.contains(middle[i - left.len()]));
        }
    }
    vstd::seq_lib::lemma_no_dup_in_concat(left + middle, right);
    assert forall|p: GOLCellRef|
        g.adjacent_positions(r, c).contains(p) <==> g.in_bounds(p.row as int, p.col as int)
            && are_adjacent(r, c, p.row as int, p.col as int) by {
        vstd::seq_lib::lemma_seq_concat_contains_all_elements(left + middle, right, p);
        vstd::seq_lib::lemma_seq_concat_contains_all_elements(left, middle, p);
    }
}

/// On a wired grid the two ways of finding neighbours agree at every cell:
/// the stored list is the list found from the geometry, so both count the
/// same live neighbours and give the same next state.
pub proof fn lemma_designs_agree(g: Grid, r: int, c: int)
    requires
        g.is_wired(),
        g.in_bounds(r, c),
    ensures
        g.neighbors_at(r, c) == g.adjacent_positions(r, c),
        g.neighbors_at(r, c).len() <= 8,
        g.alive_neighbors_at(r, c) == g.alive_adjacent_at(r, c),
        g.alive_neighbors_at(r, c) == g.alive_around(r, c),
        g.alive_neighbors_at(r, c) <= 8,
        g.next_state_at(r, c) == g.next_state_on_demand_at(r, c),
{
    lemma_adjacent_positions_are_the_cells_around(g, r, c);
    lemma_alive_adjacent_is_alive_around(g, r, c);
}

/// A step keeps a wired grid wired.
pub proof fn lemma_step_keeps_wiring(pre: Grid, post: Grid)
    requires
        pre.is_wired(),
        post.is_successor_of(pre) || post.is_on_demand_successor_of(pre),
    ensures
        post.is_wired(),
{
    assert forall|r: int, c: int| post.in_bounds(r, c) implies #[trigger] post.neighbors_at(r, c)
        == post.adjacent_positions(r, c) by {
        assert(post.row_len(r) == pre.row_len(r));
        assert(pre.neighbors_at(r, c) == pre.adjacent_positions(r, c));
        lemma_adjacent_positions_by_shape(post, pre, r, c);
    }
}

/// On a wired grid a step from the stored lists and a step from the geometry
/// lead to the same generation.
pub proof fn lemma_steps_agree(pre: Grid, by_list: Grid, by_geometry: Grid)
    requires
        pre.is_wired(),
        by_list.is_successor_of(pre),
        by_geometry.is_on_demand_successor_of(pre),
    ensures
        by_list@ == by_geometry@,
        by_list.same_wiring(by_geometry),
{
    assert forall|r: int| 0 <= r < by_list.rows() implies #[trigger] by_list.row_len(r)
        == by_geometry.row_len(r) by {
        assert(by_list.row_len(r) == pre.row_len(r));
        assert(by_geometry.row_len(r) == pre.row_len(r));
    }
    assert forall|r: int, c: int| by_list.in_bounds(r, c) implies #[trigger] by_list.state_at(r, c)
        == by_geometry.state_at(r, c) by {
        assert(by_list.row_len(r) == pre.row_len(r));
        lemma_designs_agree(pre, r, c);
    }
    assert forall|r: int, c: int| by_list.in_bounds(r, c) implies #[trigger] by_list.neighbors_at(
        r,
        c,
    ) == by_geometry.neighbors_at(r, c) by {
        assert(by_list.row_len(r) == pre.row_len(r));
        assert(by_geometry.row_len(r) == pre.row_len(r));
    }
    lemma_same_states_same_view(by_list, by_geometry);
}

/// In a rectangular grid a corner cell has at most three neighbours, a cell
/// on an edge at most five, and a cell that is on no edge exactly eight.
pub proof fn lemma_neighbor_count_by_position(g: Grid, height: nat, width: nat, r: int, c: int)
    requires
        g.is_rectangular(height, width),
        g.in_bounds(r, c),
    ensures
        (r == 0 || r == height - 1) && (c == 0 || c == width - 1) ==> g.adjacent_positions(
            r,
            c,
        ).len() <= 3,
        r == 0 || r == height - 1 || c == 0 || c == width - 1 ==> g.adjacent_positions(r, c).len()
            <= 5,
        0 < r < height - 1 && 0 < c < width - 1 ==> g.adjacent_positions(r, c).len() == 8,
{
    lemma_column_positions(g, r, c - 1, true);
    lemma_column_positions(g, r, c, false);
    lemma_column_positions(g, r, c + 1, true);
    if 0 <= r - 1 {
        assert(g.row_len(r - 1) == width);
    }
    assert(g.row_len(r) == width);
    if r + 1 < height {
        assert(g.row_len(r + 1) == width);
    }
}

/// On a wired grid neighbourhood is mutual: a cell is listed by every cell
/// that it lists.
pub proof fn lemma_wiring_is_mutual(g: Grid, r: int, c: int, p: GOLCellRef)
    requires
        g.is_wired(),
        g.in_bounds(r, c),
        g.neighbors_at(r, c).contains(p),
    ensures
        g.in_bounds(p.row as int, p.col as int),
        g.neighbors_at(p.row as int, p.col as int).contains(
            (GOLCellRef { row: r as usize, col: c as usize }),
        ),
{
    lemma_positions_fit(g, r, c);
    lemma_adjacent_positions_are_the_cells_around(g, r, c);
    lemma_adjacent_positions_are_the_cells_around(g, p.row as int, p.col as int);
}

} // verus!
