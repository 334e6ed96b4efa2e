use wasm_game_of_life::Cell;

#[test]
fn live_cell_with_fewer_than_two_neighbours_dies() {
    assert_eq!(Cell::Alive.next(0), Cell::Dead);
    assert_eq!(Cell::Alive.next(1), Cell::Dead);
}

#[test]
fn live_cell_with_two_or_three_neighbours_survives() {
    assert_eq!(Cell::Alive.next(2), Cell::Alive);
    assert_eq!(Cell::Alive.next(3), Cell::Alive);
}

#[test]
fn live_cell_with_more_than_three_neighbours_dies() {
    assert_eq!(Cell::Alive.next(4), Cell::Dead);
    assert_eq!(Cell::Alive.next(5), Cell::Dead);
    assert_eq!(Cell::Alive.next(6), Cell::Dead);
    assert_eq!(Cell::Alive.next(7), Cell::Dead);
    assert_eq!(Cell::Alive.next(8), Cell::Dead);
}

#[test]
fn dead_cell_with_exactly_three_neighbours_comes_alive() {
    assert_eq!(Cell::Dead.next(3), Cell::Alive);
}

#[test]
fn dead_cell_with_any_other_count_stays_dead() {
    assert_eq!(Cell::Dead.next(0), Cell::Dead);
    assert_eq!(Cell::Dead.next(1), Cell::Dead);
    assert_eq!(Cell::Dead.next(2), Cell::Dead);
    assert_eq!(Cell::Dead.next(4), Cell::Dead);
    assert_eq!(Cell::Dead.next(5), Cell::Dead);
    assert_eq!(Cell::Dead.next(6), Cell::Dead);
    assert_eq!(Cell::Dead.next(7), Cell::Dead);
    assert_eq!(Cell::Dead.next(8), Cell::Dead);
}

#[test]
fn rule_agrees_with_the_table_on_every_pair() {
    for count in 0u8..=8 {
        let after_alive = if count == 2 || count == 3 { Cell::Alive } else { Cell::Dead };
        let after_dead = if count == 3 { Cell::Alive } else { Cell::Dead };
        assert_eq!(Cell::Alive.next(count), after_alive);
        assert_eq!(Cell::Dead.next(count), after_dead);
    }
}

#[test]
fn rule_is_total_beyond_eight() {
    for count in 9u8..=255 {
        assert_eq!(Cell::Alive.next(count), Cell::Dead);
        assert_eq!(Cell::Dead.next(count), Cell::Dead);
    }
}

#[test]
fn code_is_zero_for_dead_and_one_for_alive() {
    assert_eq!(Cell::Dead.code(), 0);
    assert_eq!(Cell::Alive.code(), 1);
}
