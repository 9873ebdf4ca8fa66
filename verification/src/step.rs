//! The step that takes a grid from one generation to the next.
//!
//! A step has two phases. The compute phase reads the grid and stages the
//! next state of every cell; the commit phase writes the staged states. The
//! neighbours of a cell are either read from its stored list or found from the
//! geometry of the grid; on a grid whose lists were filled by the wiring pass
//! the two agree.
use vstd::prelude::*;
use crate::grid::Grid;
use crate::state::State;

verus! {

impl Grid {
    /// The state that the cell at an in-bounds position takes in the next
    /// generation, judged by its stored neighbour list.
    pub open spec fn next_state_at(&self, r: int, c: int) -> State {
        self.state_at(r, c).successor(self.alive_neighbors_at(r, c))
    }

    /// The state that the cell at an in-bounds position takes in the next
    /// generation, judged by the cells around it.
    pub open spec fn next_state_on_demand_at(&self, r: int, c: int) -> State {
        self.state_at(r, c).successor(self.alive_adjacent_at(r, c))
    }

    /// `self` is the generation that follows `pre`: the same cells with the
    /// same neighbour lists, each in the state that the rule gives it from the
    /// states that its listed neighbours have in `pre`.
    pub open spec fn is_successor_of(&self, pre: Grid) -> bool {
        &&& self.same_shape(pre)
        &&& self.same_wiring(pre)
        &&& forall|r: int, c: int|
            pre.in_bounds(r, c) ==> #[trigger] self.state_at(r, c) == pre.next_state_at(r, c)
    }

    /// `self` is the generation that follows `pre` by geometry: the same
    /// cells with the same neighbour lists, each in the state that the rule
    /// gives it from the states that the cells around it have in `pre`.
    pub open spec fn is_on_demand_successor_of(&self, pre: Grid) -> bool {
        &&& self.same_shape(pre)
        &&& self.same_wiring(pre)
        &&& forall|r: int, c: int|
            pre.in_bounds(r, c) ==> #[trigger] self.state_at(r, c) == pre.next_state_on_demand_at(
                r,
                c,
            )
    }

    /// `staged` holds one state for each cell of the grid, row by row.
    pub open spec fn shaped_like(&self, staged: Seq<Vec<State>>) -> bool {
        &&& staged.len() == self.rows()
        &&& forall|r: int| 0 <= r < self.rows() ==> (#[trigger] staged[r])@.len() == self.row_len(r)
    }

    /// The next state of every cell, with the live neighbours counted from
    /// the geometry where `on_demand` is set and from the stored lists where
    /// it is not.
    fn stage(&self, on_demand: bool) -> (staged: Vec<Vec<State>>)
        ensures
            self.shaped_like(staged@),
            forall|r: int, c: int|
                self.in_bounds(r, c) ==> (#[trigger] staged@[r]@[c]) == (if on_demand {
                    self.next_state_on_demand_at(r, c)
                } else {
                    self.next_state_at(r, c)
                }),
    {
        let mut staged: Vec<Vec<State>> = Vec::new();
        let mut i: usize = 0;
        while i < self.cells.len()
            invariant
                i <= self.rows(),
                staged@.len() == i,
                forall|r: int| 0 <= r < i ==> (#[trigger] staged@[r])@.len() == self.row_len(r),
                forall|r: int, c: int|
                    self.in_bounds(r, c) && r < i ==> (#[trigger] staged@[r]@[c]) == (if on_demand {
                        self.next_state_on_demand_at(r, c)
                    } else {
                        self.next_state_at(r, c)
                    }),
            decreases self.rows() - i,
        {
            let mut row: Vec<State> = Vec::new();
            let mut j: usize = 0;
            while j < self.cells[i].len()
                invariant
                    i < self.rows(),
                    j <= self.row_len(i as int),
                    row@.len() == j,
                    forall|c: int|
                        0 <= c < j ==> (#[trigger] row@[c]) == (if on_demand {
                            self.next_state_on_demand_at(i as int, c)
                        } else {
                            self.next_state_at(i as int, c)
                        }),
                decreases self.row_len(i as int) - j,
            {
                let alive: usize = if on_demand {
                    self.alive_adjacent(i, j)
                } else {
                    self.alive_neighbors(i, j)
                };
                row.push(self.cells[i][j].state.next(alive));
                j = j + 1;
            }
            staged.push(row);
            i = i + 1;
        }
        staged
    }

    /// The compute phase of a step: the next state of every cell, judged by
    /// the stored neighbour lists. Nothing is written to the grid.
    pub fn staged_states(&self) -> (staged: Vec<Vec<State>>)
        ensures
            self.shaped_like(staged@),
            forall|r: int, c: int|
                self.in_bounds(r, c) ==> (#[trigger] staged@[r]@[c]) == self.next_state_at(r, c),
    {
        self.stage(false)
    }

    /// The compute phase of a step by geometry: the next state of every cell,
    /// judged by the cells around it. Nothing is written to the grid.
    pub fn staged_states_on_demand(&self) -> (staged: Vec<Vec<State>>)
        ensures
            self.shaped_like(staged@),
            forall|r: int, c: int|
                self.in_bounds(r, c) ==> (#[trigger] staged@[r]@[c])
                    == self.next_state_on_demand_at(r, c),
    {
        self.stage(true)
    }

    /// The commit phase of a step: every cell for which `staged` holds a state
    /// takes that state, and every other cell keeps its own. The neighbour
    /// lists stay as they are.
    pub fn commit(&mut self, staged: &Vec<Vec<State>>)
        ensures
            final(self).same_shape(*old(self)),
            final(self).same_wiring(*old(self)),
            forall|r: int, c: int|
                old(self).in_bounds(r, c) ==> (#[trigger] final(self).state_at(r, c)) == (if r
                    < staged@.len() && c < staged@[r]@.len() {
                    staged@[r]@[c]
                } else {
                    old(self).state_at(r, c)
                }),
    {
        let ghost pre = *self;
        let mut i: usize = 0;
        while i < self.cells.len() && i < staged.len()
            invariant
                i <= staged@.len(),
                self.same_shape(pre),
                self.same_wiring(pre),
                forall|r: int, c: int|
                    self.in_bounds(r, c) ==> (#[trigger] self.state_at(r, c)) == (if r < i && c
                        < staged@[r]@.len() {
                        staged@[r]@[c]
                    } else {
                        pre.state_at(r, c)
                    }),
            decreases self.rows() - i,
        {
            let mut j: usize = 0;
            while j < self.cells[i].len() && j < staged[i].len()
                invariant
                    i < self.rows(),
                    i < staged@.len(),
                    j <= staged@[i as int]@.len(),
                    self.same_shape(pre),
                    self.same_wiring(pre),
                    forall|r: int, c: int|
                        self.in_bounds(r, c) ==> (#[trigger] self.state_at(r, c)) == (if (r < i
                            && c < staged@[r]@.len()) || (r == i && c < j) {
                            staged@[r]@[c]
                        } else {
                            pre.state_at(r, c)
                        }),
                decreases self.row_len(i as int) - j,
            {
                let ghost before = *self;
                self.cells[i][j].state = staged[i][j];
                proof {
                    assert forall|r: int| 0 <= r < self.rows() implies #[trigger] self.row_len(r)
                        == before.row_len(r) by {}
                    assert forall|r: int, c: int| self.in_bounds(r, c) implies #[trigger] self.neighbors_at(
                        r,
                        c,
                    ) == before.neighbors_at(r, c) by {}
                    assert forall|r: int, c: int|
                        self.in_bounds(r, c) && (r != i || c != j) implies #[trigger] self.state_at(r, c)
                        == before.state_at(r, c) by {}
                }
                j = j + 1;
            }
            i = i + 1;
        }
    }

    /// Advances the grid by one generation.
    ///
    /// Every cell is judged by the states that its listed neighbours have
    /// before the step; no cell sees a state that the step itself wrote.
    pub fn step(&mut self)
        ensures
            final(self).is_successor_of(*old(self)),
    {
        let staged = self.staged_states();
        self.commit(&staged);
    }

    /// Advances the grid by one generation, finding the neighbours of each
    /// cell from the geometry of the grid. The stored neighbour lists are
    /// neither read nor changed.
    pub fn step_on_demand(&mut self)
        ensures
            final(self).is_on_demand_successor_of(*old(self)),
    {
        let staged = self.staged_states_on_demand();
        self.commit(&staged);
    }
}

} // verus!
