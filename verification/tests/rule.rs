use conways_gol::{GOLCell, GOLCellRef, Grid, State};

#[test]
fn live_cell_survives_with_two_or_three() {
    assert_eq!(State::Alive.next(2), State::Alive);
    assert_eq!(State::Alive.next(3), State::Alive);
}

#[test]
fn live_cell_dies_with_any_other_count() {
    for n in [0usize, 1, 4, 5, 6, 7, 8, 9, 1000] {
        assert_eq!(State::Alive.next(n), State::Dead, "count {}", n);
    }
}

#[test]
fn dead_cell_comes_alive_with_exactly_three() {
    assert_eq!(State::Dead.next(3), State::Alive);
    for n in [0usize, 1, 2, 4, 5, 6, 7, 8, 9, 1000] {
        assert_eq!(State::Dead.next(n), State::Dead, "count {}", n);
    }
}

#[test]
fn glyphs_of_the_two_states() {
    assert_eq!(State::Alive.glyph(), '@');
    assert_eq!(State::Dead.glyph(), '.');
    assert_eq!(GOLCell::new(State::Alive).glyph(), '@');
    assert_eq!(GOLCell::new(State::Dead).glyph(), '.');
}

#[test]
fn new_cell_has_its_state_and_no_neighbors() {
    let cell = GOLCell::new(State::Alive);
    assert_eq!(cell.state, State::Alive);
    assert!(cell.neighbors.is_empty());
    let cell = GOLCell::new(State::Dead);
    assert_eq!(cell.state, State::Dead);
    assert!(cell.neighbors.is_empty());
}

#[test]
fn add_neighbor_appends_without_checking() {
    let mut cell = GOLCell::new(State::Dead);
    let a = GOLCellRef { row: 1, col: 2 };
    let b = GOLCellRef { row: 0, col: 0 };
    cell.add_neighbor(a);
    cell.add_neighbor(b);
    cell.add_neighbor(a);
    assert_eq!(cell.neighbors, vec![a, b, a]);
    assert_eq!(cell.state, State::Dead);
}

#[test]
fn empty_grids() {
    assert!(Grid::new().cells.is_empty());
    assert!(Grid::default().cells.is_empty());
    let mut grid = Grid::new();
    grid.step();
    assert!(grid.cells.is_empty());
    grid.step_on_demand();
    assert!(grid.cells.is_empty());
}

#[test]
fn with_cells_keeps_the_cells_it_is_given() {
    let mut first = GOLCell::new(State::Alive);
    first.add_neighbor(GOLCellRef { row: 1, col: 0 });
    let rows = vec![vec![first, GOLCell::new(State::Dead)], vec![GOLCell::new(State::Alive)]];
    let grid = Grid::with_cells(rows);
    assert_eq!(grid.cells.len(), 2);
    assert_eq!(grid.cells[0].len(), 2);
    assert_eq!(grid.cells[1].len(), 1);
    assert_eq!(grid.cells[0][0].state, State::Alive);
    assert_eq!(grid.cells[0][1].state, State::Dead);
    assert_eq!(grid.cells[1][0].state, State::Alive);
    assert_eq!(grid.cells[0][0].neighbors, vec![GOLCellRef { row: 1, col: 0 }]);
    assert_eq!(grid.get_neighbors(0, 0), &vec![GOLCellRef { row: 1, col: 0 }]);
    assert!(grid.get_neighbors(0, 1).is_empty());
}
