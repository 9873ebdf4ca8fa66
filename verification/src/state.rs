//! The state of a single cell and the rule that takes it to the next
//! generation.
use vstd::prelude::*;

verus! {

/// The two values a cell can take.
#[derive(Clone, Copy, Debug, PartialEq, Eq, Structural)]
pub enum State {
    Dead,
    Alive,
}

impl State {
    /// The state that follows `self` when `alive_neighbors` of the cell's
    /// neighbours are alive: a live cell survives with two or three, a dead
    /// cell comes alive with exactly three, and every other cell is dead.
    pub open spec fn successor(self, alive_neighbors: nat) -> State {
        match self {
            State::Alive => if alive_neighbors == 2 || alive_neighbors == 3 {
                State::Alive
            } else {
                State::Dead
            },
            State::Dead => if alive_neighbors == 3 {
                State::Alive
            } else {
                State::Dead
            },
        }
    }

    /// The character that stands for a state when a grid is drawn.
    pub open spec fn glyph_of(self) -> char {
        match self {
            State::Alive => '@',
            State::Dead => '.',
        }
    }

    /// Applies the rule of the game to one cell.
    pub fn next(&self, alive_neighbors: usize) -> (next: State)
        ensures
            next == self.successor(alive_neighbors as nat),
    {
        match *self {
            State::Alive => {
                if alive_neighbors == 2 || alive_neighbors == 3 {
                    State::Alive
                } else {
                    State::Dead
                }
            },
            State::Dead => {
                if alive_neighbors == 3 {
                    State::Alive
                } else {
                    State::Dead
                }
            },
        }
    }

    /// `@` for a live cell, `.` for a dead one.
    pub fn glyph(&self) -> (c: char)
        ensures
            c == self.glyph_of(),
    {
        match *self {
            State::Alive => '@',
            State::Dead => '.',
        }
    }
}

} // verus!
