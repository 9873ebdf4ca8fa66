use conways_gol::{
    populate_neighbors, populate_neighbors_from_grid_for_cell_at, GOLCell, GOLCellRef, Grid, State,
};

fn dead_grid(height: usize, width: usize) -> Grid {
    let mut rows = vec![];
    for _ in 0..height {
        let mut row = vec![];
        for _ in 0..width {
            row.push(GOLCell::new(State::Dead));
        }
        rows.push(row);
    }
    Grid::with_cells(rows)
}

fn ragged_grid(lengths: &[usize]) -> Grid {
    let mut rows = vec![];
    for &len in lengths {
        let mut row = vec![];
        for _ in 0..len {
            row.push(GOLCell::new(State::Dead));
        }
        rows.push(row);
    }
    Grid::with_cells(rows)
}

fn at(row: usize, col: usize) -> GOLCellRef {
    GOLCellRef { row, col }
}

#[test]
fn interior_cell_has_eight_neighbors_in_order() {
    let grid = dead_grid(5, 5);
    assert_eq!(
        grid.adjacent(2, 2),
        vec![at(1, 1), at(2, 1), at(3, 1), at(1, 2), at(3, 2), at(1, 3), at(2, 3), at(3, 3)]
    );
}

#[test]
fn corner_cells_have_three_neighbors() {
    let grid = dead_grid(4, 6);
    assert_eq!(grid.adjacent(0, 0), vec![at(1, 0), at(0, 1), at(1, 1)]);
    assert_eq!(grid.adjacent(0, 5), vec![at(0, 4), at(1, 4), at(1, 5)]);
    assert_eq!(grid.adjacent(3, 0), vec![at(2, 0), at(2, 1), at(3, 1)]);
    assert_eq!(grid.adjacent(3, 5), vec![at(2, 4), at(3, 4), at(2, 5)]);
}

#[test]
fn edge_cells_have_five_neighbors() {
    let grid = dead_grid(4, 6);
    assert_eq!(grid.adjacent(0, 2), vec![at(0, 1), at(1, 1), at(1, 2), at(0, 3), at(1, 3)]);
    assert_eq!(grid.adjacent(3, 2), vec![at(2, 1), at(3, 1), at(2, 2), at(2, 3), at(3, 3)]);
    assert_eq!(grid.adjacent(1, 0), vec![at(0, 0), at(2, 0), at(0, 1), at(1, 1), at(2, 1)]);
    assert_eq!(grid.adjacent(2, 5), vec![at(1, 4), at(2, 4), at(3, 4), at(1, 5), at(3, 5)]);
}

#[test]
fn neighbor_counts_over_a_whole_grid() {
    let height = 5;
    let width = 7;
    let grid = dead_grid(height, width);
    for r in 0..height {
        for c in 0..width {
            let on_row_edge = r == 0 || r == height - 1;
            let on_col_edge = c == 0 || c == width - 1;
            let expected = if on_row_edge && on_col_edge {
                3
            } else if on_row_edge || on_col_edge {
                5
            } else {
                8
            };
            assert_eq!(grid.adjacent(r, c).len(), expected, "at {} {}", r, c);
        }
    }
}

#[test]
fn single_cell_has_no_neighbors() {
    let mut grid = dead_grid(1, 1);
    assert!(grid.adjacent(0, 0).is_empty());
    populate_neighbors(&mut grid);
    assert!(grid.get_neighbors(0, 0).is_empty());
}

#[test]
fn single_row_and_single_column() {
    let grid = dead_grid(1, 3);
    assert_eq!(grid.adjacent(0, 0), vec![at(0, 1)]);
    assert_eq!(grid.adjacent(0, 1), vec![at(0, 0), at(0, 2)]);
    assert_eq!(grid.adjacent(0, 2), vec![at(0, 1)]);
    let grid = dead_grid(3, 1);
    assert_eq!(grid.adjacent(0, 0), vec![at(1, 0)]);
    assert_eq!(grid.adjacent(1, 0), vec![at(0, 0), at(2, 0)]);
    assert_eq!(grid.adjacent(2, 0), vec![at(1, 0)]);
}

#[test]
fn no_neighbor_across_the_border() {
    let grid = dead_grid(2, 2);
    assert_eq!(grid.adjacent(0, 0), vec![at(1, 0), at(0, 1), at(1, 1)]);
    assert_eq!(grid.adjacent(1, 1), vec![at(0, 0), at(1, 0), at(0, 1)]);
}

#[test]
fn rows_of_differing_length() {
    let grid = ragged_grid(&[4, 1, 3, 0, 2]);
    assert_eq!(grid.adjacent(1, 0), vec![at(0, 0), at(2, 0), at(0, 1), at(2, 1)]);
    assert_eq!(grid.adjacent(0, 3), vec![at(0, 2)]);
    assert_eq!(grid.adjacent(2, 2), vec![at(2, 1)]);
    assert_eq!(grid.adjacent(2, 0), vec![at(1, 0), at(2, 1)]);
    assert_eq!(grid.adjacent(4, 1), vec![at(4, 0)]);
    assert_eq!(grid.adjacent(0, 0), vec![at(1, 0), at(0, 1)]);
}

#[test]
fn wiring_one_cell_appends_the_cells_around_it() {
    let mut grid = dead_grid(3, 3);
    grid.cells[0][0].state = State::Alive;
    populate_neighbors_from_grid_for_cell_at(&mut grid, 1, 1);
    assert_eq!(
        grid.get_neighbors(1, 1),
        &vec![at(0, 0), at(1, 0), at(2, 0), at(0, 1), at(2, 1), at(0, 2), at(1, 2), at(2, 2)]
    );
    for r in 0..3 {
        for c in 0..3 {
            if (r, c) != (1, 1) {
                assert!(grid.get_neighbors(r, c).is_empty());
            }
            let expected = if (r, c) == (0, 0) { State::Alive } else { State::Dead };
            assert_eq!(grid.cells[r][c].state, expected);
        }
    }
    populate_neighbors_from_grid_for_cell_at(&mut grid, 0, 0);
    assert_eq!(grid.get_neighbors(0, 0), &vec![at(1, 0), at(0, 1), at(1, 1)]);
    populate_neighbors_from_grid_for_cell_at(&mut grid, 0, 0);
    assert_eq!(
        grid.get_neighbors(0, 0),
        &vec![at(1, 0), at(0, 1), at(1, 1), at(1, 0), at(0, 1), at(1, 1)]
    );
}

#[test]
fn the_two_designs_agree_on_every_cell() {
    for (height, width) in [(1, 1), (1, 4), (4, 1), (2, 2), (3, 5), (5, 5)] {
        let mut grid = dead_grid(height, width);
        populate_neighbors(&mut grid);
        for r in 0..height {
            for c in 0..width {
                assert_eq!(grid.get_neighbors(r, c), &grid.adjacent(r, c));
                assert!(grid.get_neighbors(r, c).len() <= 8);
            }
        }
    }
    let lengths = [3, 0, 5, 1, 1, 4];
    let mut grid = ragged_grid(&lengths);
    populate_neighbors(&mut grid);
    for (r, &len) in lengths.iter().enumerate() {
        assert_eq!(grid.cells[r].len(), len);
        for c in 0..len {
            assert_eq!(grid.get_neighbors(r, c), &grid.adjacent(r, c));
        }
    }
}

#[test]
fn neighbors_are_mutual_after_wiring() {
    let lengths = [3, 2, 5, 1];
    let mut grid = ragged_grid(&lengths);
    populate_neighbors(&mut grid);
    for (r, &len) in lengths.iter().enumerate() {
        for c in 0..len {
            for n in grid.get_neighbors(r, c) {
                assert!(grid.get_neighbors(n.row, n.col).contains(&at(r, c)));
            }
        }
    }
}

#[test]
fn counting_live_cells() {
    let mut grid = dead_grid(3, 3);
    grid.cells[0][1].state = State::Alive;
    grid.cells[2][2].state = State::Alive;
    assert!(grid.is_alive(0, 1));
    assert!(grid.is_alive(2, 2));
    assert!(!grid.is_alive(1, 1));
    assert!(!grid.is_alive(3, 0));
    assert!(!grid.is_alive(0, 3));
    assert!(!grid.is_alive(usize::MAX, usize::MAX));
    assert_eq!(grid.count_alive(&vec![]), 0);
    assert_eq!(grid.count_alive(&vec![at(0, 1), at(1, 1), at(2, 2)]), 2);
    assert_eq!(grid.count_alive(&vec![at(0, 1), at(0, 1), at(0, 1)]), 3);
    assert_eq!(grid.count_alive(&vec![at(7, 7), at(0, 9), at(2, 2)]), 1);
    assert_eq!(grid.alive_adjacent(1, 1), 2);
    assert_eq!(grid.alive_adjacent(0, 1), 0);
    assert_eq!(grid.alive_adjacent(1, 2), 2);
    assert_eq!(grid.alive_neighbors(1, 1), 0);
    populate_neighbors(&mut grid);
    assert_eq!(grid.alive_neighbors(1, 1), 2);
    assert_eq!(grid.alive_neighbors(0, 1), 0);
    assert_eq!(grid.alive_neighbors(0, 0), 1);
}
