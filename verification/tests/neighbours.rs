use wasm_game_of_life::{Cell, Universe};

fn universe_with(width: i32, height: i32, alive: &[(i32, i32)]) -> Universe {
    let mut cells = vec![Cell::Dead; (width * height) as usize];
    for &(row, column) in alive {
        cells[(row * width + column) as usize] = Cell::Alive;
    }
    Universe::new(width, height, cells).ok().unwrap()
}

#[test]
fn corner_sees_the_opposite_corner() {
    let universe = universe_with(5, 4, &[(3, 4)]);
    assert_eq!(universe.get_neighbour_count(0, 0), 1);
}

#[test]
fn corner_sees_the_opposite_edges() {
    let last_row = universe_with(5, 4, &[(3, 0), (3, 1)]);
    assert_eq!(last_row.get_neighbour_count(0, 0), 2);
    let last_column = universe_with(5, 4, &[(0, 4), (1, 4)]);
    assert_eq!(last_column.get_neighbour_count(0, 0), 2);
}

#[test]
fn every_corner_sees_all_three_others() {
    let universe = universe_with(6, 5, &[(0, 0), (0, 5), (4, 0), (4, 5)]);
    assert_eq!(universe.get_neighbour_count(0, 0), 3);
    assert_eq!(universe.get_neighbour_count(0, 5), 3);
    assert_eq!(universe.get_neighbour_count(4, 0), 3);
    assert_eq!(universe.get_neighbour_count(4, 5), 3);
}

#[test]
fn cell_is_not_its_own_neighbour_on_a_large_grid() {
    let universe = universe_with(5, 5, &[(2, 2)]);
    assert_eq!(universe.get_neighbour_count(2, 2), 0);
    assert_eq!(universe.get_neighbour_count(1, 1), 1);
    assert_eq!(universe.get_neighbour_count(1, 2), 1);
    assert_eq!(universe.get_neighbour_count(1, 3), 1);
    assert_eq!(universe.get_neighbour_count(2, 1), 1);
    assert_eq!(universe.get_neighbour_count(2, 3), 1);
    assert_eq!(universe.get_neighbour_count(3, 1), 1);
    assert_eq!(universe.get_neighbour_count(3, 2), 1);
    assert_eq!(universe.get_neighbour_count(3, 3), 1);
    assert_eq!(universe.get_neighbour_count(0, 0), 0);
    assert_eq!(universe.get_neighbour_count(4, 2), 0);
}

#[test]
fn interior_cell_counts_each_neighbour() {
    let universe = universe_with(
        5,
        5,
        &[(1, 1), (1, 2), (1, 3), (2, 1), (2, 2), (2, 3), (3, 1), (3, 2), (3, 3)],
    );
    assert_eq!(universe.get_neighbour_count(2, 2), 8);
    assert_eq!(universe.get_neighbour_count(1, 1), 3);
    assert_eq!(universe.get_neighbour_count(1, 2), 5);
    assert_eq!(universe.get_neighbour_count(0, 2), 3);
    assert_eq!(universe.get_neighbour_count(0, 0), 1);
    assert_eq!(universe.get_neighbour_count(4, 4), 1);
}

#[test]
fn full_grid_gives_eight_everywhere() {
    let cells = vec![Cell::Alive; 12];
    let universe = Universe::new(4, 3, cells).ok().unwrap();
    for row in 0..3 {
        for column in 0..4 {
            assert_eq!(universe.get_neighbour_count(row, column), 8);
        }
    }
}

#[test]
fn empty_grid_gives_zero_everywhere() {
    let universe = universe_with(4, 3, &[]);
    for row in 0..3 {
        for column in 0..4 {
            assert_eq!(universe.get_neighbour_count(row, column), 0);
        }
    }
}

#[test]
fn count_lies_between_zero_and_eight() {
    let mut cells = Vec::new();
    for i in 0..63usize {
        cells.push(if (i * i + 3 * i) % 5 < 2 { Cell::Alive } else { Cell::Dead });
    }
    let universe = Universe::new(9, 7, cells).ok().unwrap();
    for row in 0..7 {
        for column in 0..9 {
            assert!(universe.get_neighbour_count(row, column) <= 8);
        }
    }
}

#[test]
fn single_cell_grid_counts_the_cell_five_times() {
    let alive = universe_with(1, 1, &[(0, 0)]);
    assert_eq!(alive.get_neighbour_count(0, 0), 5);
    let dead = universe_with(1, 1, &[]);
    assert_eq!(dead.get_neighbour_count(0, 0), 0);
}

#[test]
fn two_by_two_grid_counts_a_cell_once_per_offset() {
    let universe = universe_with(2, 2, &[(0, 0)]);
    assert_eq!(universe.get_neighbour_count(0, 0), 0);
    assert_eq!(universe.get_neighbour_count(0, 1), 2);
    assert_eq!(universe.get_neighbour_count(1, 0), 2);
    assert_eq!(universe.get_neighbour_count(1, 1), 4);
}

#[test]
fn single_row_counts_itself_once_and_its_sides_three_times() {
    let universe = universe_with(4, 1, &[(0, 0)]);
    assert_eq!(universe.get_neighbour_count(0, 0), 1);
    assert_eq!(universe.get_neighbour_count(0, 1), 3);
    assert_eq!(universe.get_neighbour_count(0, 2), 0);
    assert_eq!(universe.get_neighbour_count(0, 3), 3);
}

#[test]
fn single_column_counts_itself_once_and_its_sides_three_times() {
    let universe = universe_with(1, 4, &[(0, 0)]);
    assert_eq!(universe.get_neighbour_count(0, 0), 1);
    assert_eq!(universe.get_neighbour_count(1, 0), 3);
    assert_eq!(universe.get_neighbour_count(2, 0), 0);
    assert_eq!(universe.get_neighbour_count(3, 0), 3);
}

#[test]
fn row_of_two_cells_counts_the_other_cell_six_times() {
    let universe = universe_with(2, 1, &[(0, 0)]);
    assert_eq!(universe.get_neighbour_count(0, 0), 1);
    assert_eq!(universe.get_neighbour_count(0, 1), 6);
}

#[test]
fn row_of_five_with_two_live_cells() {
    let universe = universe_with(5, 1, &[(0, 1), (0, 2)]);
    assert_eq!(universe.get_neighbour_count(0, 0), 3);
    assert_eq!(universe.get_neighbour_count(0, 1), 4);
    assert_eq!(universe.get_neighbour_count(0, 2), 4);
    assert_eq!(universe.get_neighbour_count(0, 3), 3);
    assert_eq!(universe.get_neighbour_count(0, 4), 0);
}
