//! Two patterns and what a step makes of them: the block, which stays as it
//! is, and the blinker, which turns by a quarter with every step.
use vstd::prelude::*;
use crate::counting::lemma_alive_adjacent_is_alive_around;
use crate::grid::Grid;
use crate::laws::lemma_designs_agree;
use crate::grid::lemma_same_states_same_view;

verus! {

/// Whether `i`, `j` is one of the four positions of the block whose upper
/// left corner is `r`, `c`.
pub open spec fn in_block(r: int, c: int, i: int, j: int) -> bool {
    r <= i <= r + 1 && c <= j <= c + 1
}

/// Whether `i`, `j` is one of the three positions of the horizontal line
/// whose middle is `r`, `c`.
pub open spec fn in_row_of_three(r: int, c: int, i: int, j: int) -> bool {
    i == r && c - 1 <= j <= c + 1
}

/// Whether `i`, `j` is one of the three positions of the vertical line whose
/// middle is `r`, `c`.
pub open spec fn in_column_of_three(r: int, c: int, i: int, j: int) -> bool {
    j == c && r - 1 <= i <= r + 1
}

impl Grid {
    /// `self` is the generation after `pre`, reached by a step from the
    /// stored lists of a wired grid or by a step from the geometry.
    pub open spec fn is_generation_after(&self, pre: Grid) -> bool {
        (pre.is_wired() && self.is_successor_of(pre)) || self.is_on_demand_successor_of(pre)
    }
}

/// The generation after `pre` has a live cell exactly where `pre` has a cell
/// that the rule makes alive, counting the live cells among the eight
/// positions around it.
pub proof fn lemma_generation_by_counting(pre: Grid, post: Grid)
    requires
        post.is_generation_after(pre),
    ensures
        post.same_shape(pre),
        forall|r: int, c: int| #[trigger] post.in_bounds(r, c) == pre.in_bounds(r, c),
        forall|r: int, c: int|
            pre.in_bounds(r, c) ==> #[trigger] post.state_at(r, c) == pre.state_at(r, c).successor(
                pre.alive_around(r, c),
            ),
{
    assert forall|r: int, c: int| #[trigger] post.in_bounds(r, c) == pre.in_bounds(r, c) by {
        if 0 <= r < pre.rows() {
            assert(post.row_len(r) == pre.row_len(r));
        }
    }
    assert forall|r: int, c: int| pre.in_bounds(r, c) implies #[trigger] post.state_at(r, c)
        == pre.state_at(r, c).successor(pre.alive_around(r, c)) by {
        lemma_alive_adjacent_is_alive_around(pre, r, c);
        if pre.is_wired() && post.is_successor_of(pre) {
            lemma_designs_agree(pre, r, c);
        }
    }
}

/// Two grids of one shape with live cells at the same positions are in the
/// same states.
proof fn lemma_same_live_cells_same_view(a: Grid, b: Grid)
    requires
        a.same_shape(b),
        forall|i: int, j: int| #[trigger] a.alive_at(i, j) == b.alive_at(i, j),
    ensures
        a@ == b@,
{
    assert forall|i: int, j: int| a.in_bounds(i, j) implies #[trigger] a.state_at(i, j)
        == b.state_at(i, j) by {
        assert(a.row_len(i) == b.row_len(i));
        assert(a.alive_at(i, j) == b.alive_at(i, j));
    }
    lemma_same_states_same_view(a, b);
}

/// The block is a still life: a grid in which exactly the four cells of a
/// two-by-two block are alive is in the same states after a step.
pub proof fn lemma_block_is_still_life(pre: Grid, post: Grid, r: int, c: int)
    requires
        post.is_generation_after(pre),
        forall|i: int, j: int| #[trigger] pre.alive_at(i, j) <==> in_block(r, c, i, j),
    ensures
        forall|i: int, j: int| #[trigger] post.alive_at(i, j) <==> in_block(r, c, i, j),
        post@ == pre@,
{
    lemma_generation_by_counting(pre, post);
    assert forall|i: int, j: int| #[trigger] post.alive_at(i, j) <==> in_block(r, c, i, j) by {
        assert(post.in_bounds(i, j) == pre.in_bounds(i, j));
        assert(pre.alive_at(i, j) <==> in_block(r, c, i, j));
        assert(pre.alive_at(r, c) && pre.alive_at(r + 1, c) && pre.alive_at(r, c + 1)
            && pre.alive_at(r + 1, c + 1));
        if pre.in_bounds(i, j) {
            assert(post.state_at(i, j) == pre.state_at(i, j).successor(pre.alive_around(i, j)));
        }
    }
    lemma_same_live_cells_same_view(post, pre);
}

/// A horizontal line of three live cells, alone on a grid that has a cell
/// above and a cell below its middle, is a vertical line of three after a
/// step.
pub proof fn lemma_blinker_turns_upright(pre: Grid, post: Grid, r: int, c: int)
    requires
        post.is_generation_after(pre),
        forall|i: int, j: int| #[trigger] pre.alive_at(i, j) <==> in_row_of_three(r, c, i, j),
        pre.in_bounds(r - 1, c),
        pre.in_bounds(r + 1, c),
    ensures
        forall|i: int, j: int| #[trigger] post.alive_at(i, j) <==> in_column_of_three(r, c, i, j),
{
    lemma_generation_by_counting(pre, post);
    assert forall|i: int, j: int| #[trigger] post.alive_at(i, j) <==> in_column_of_three(
        r,
        c,
        i,
        j,
    ) by {
        assert(post.in_bounds(i, j) == pre.in_bounds(i, j));
        assert(pre.alive_at(i, j) <==> in_row_of_three(r, c, i, j));
        assert(pre.alive_at(r, c - 1) && pre.alive_at(r, c) && pre.alive_at(r, c + 1));
        if pre.in_bounds(i, j) {
            assert(post.state_at(i, j) == pre.state_at(i, j).successor(pre.alive_around(i, j)));
        }
    }
}

/// A vertical line of three live cells, alone on a grid that has a cell to
/// the left and a cell to the right of its middle, is a horizontal line of
/// three after a step.
pub proof fn lemma_blinker_lies_down(pre: Grid, post: Grid, r: int, c: int)
    requires
        post.is_generation_after(pre),
        forall|i: int, j: int| #[trigger] pre.alive_at(i, j) <==> in_column_of_three(r, c, i, j),
        pre.in_bounds(r, c - 1),
        pre.in_bounds(r, c + 1),
    ensures
        forall|i: int, j: int| #[trigger] post.alive_at(i, j) <==> in_row_of_three(r, c, i, j),
{
    lemma_generation_by_counting(pre, post);
    assert forall|i: int, j: int| #[trigger] post.alive_at(i, j) <==> in_row_of_three(
        r,
        c,
        i,
        j,
    ) by {
        assert(post.in_bounds(i, j) == pre.in_bounds(i, j));
        assert(pre.alive_at(i, j) <==> in_column_of_three(r, c, i, j));
        assert(pre.alive_at(r - 1, c) && pre.alive_at(r, c) && pre.alive_at(r + 1, c));
        if pre.in_bounds(i, j) {
            assert(post.state_at(i, j) == pre.state_at(i, j).successor(pre.alive_around(i, j)));
        }
    }
}

/// The blinker has period two: a horizontal line of three live cells, alone
/// on a grid that has a cell above and a cell below its middle, is a
/// vertical line after one step and the horizontal line again after two.
pub proof fn lemma_blinker_has_period_two(first: Grid, second: Grid, third: Grid, r: int, c: int)
    requires
        second.is_generation_after(first),
        third.is_generation_after(second),
        forall|i: int, j: int| #[trigger] first.alive_at(i, j) <==> in_row_of_three(r, c, i, j),
        first.in_bounds(r - 1, c),
        first.in_bounds(r + 1, c),
    ensures
        forall|i: int, j: int| #[trigger] second.alive_at(i, j) <==> in_column_of_three(r, c, i, j),
        forall|i: int, j: int| #[trigger] third.alive_at(i, j) <==> in_row_of_three(r, c, i, j),
        third@ == first@,
{
    lemma_blinker_turns_upright(first, second, r, c);
    lemma_generation_by_counting(first, second);
    lemma_generation_by_counting(second, third);
    assert(first.alive_at(r, c - 1) && first.alive_at(r, c + 1));
    assert(second.in_bounds(r, c - 1) == first.in_bounds(r, c - 1));
    assert(second.in_bounds(r, c + 1) == first.in_bounds(r, c + 1));
    lemma_blinker_lies_down(second, third, r, c);
    assert(third.same_shape(first)) by {
        assert forall|i: int| 0 <= i < third.rows() implies #[trigger] third.row_len(i)
            == first.row_len(i) by {
            assert(second.row_len(i) == first.row_len(i));
        }
    }
    lemma_same_live_cells_same_view(third, first);
}

} // verus!
