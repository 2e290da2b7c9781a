use life_grid::{
    advance, count_neighbours, load_area, next_state, render, update_grid, Area, GridError, Point,
    State,
};

fn cells(a: &Area) -> Vec<Vec<State>> {
    let mut rows = Vec::new();
    for row in 0..a.height() {
        let mut r = Vec::new();
        for col in 0..a.width() {
            r.push(a.get(&Point { row, col }));
        }
        rows.push(r);
    }
    rows
}

fn text(a: &Area) -> String {
    render(a).into_iter().collect()
}

fn grid(s: &str) -> Area {
    match load_area(s) {
        Ok(a) => a,
        Err(_) => panic!("grid text rejected"),
    }
}

#[test]
fn blinker_oscillates_with_period_two() {
    let start = grid("0,0,0\n1,1,1\n0,0,0");
    let once = advance(&start);
    assert_eq!(text(&once), "\n-*-\n-*-\n-*-");
    let twice = advance(&once);
    assert_eq!(text(&twice), "\n---\n***\n---");
    assert!(cells(&twice) == cells(&start));
}

#[test]
fn isolated_cell_dies() {
    let start = grid("0,0,0\n0,1,0\n0,0,0");
    let next = advance(&start);
    assert_eq!(text(&next), "\n---\n---\n---");
}

#[test]
fn block_is_still_life() {
    let start = grid("0,0,0,0\n0,1,1,0\n0,1,1,0\n0,0,0,0");
    let mut a = grid("0,0,0,0\n0,1,1,0\n0,1,1,0\n0,0,0,0");
    for _ in 0..10 {
        update_grid(&mut a);
        assert!(cells(&a) == cells(&start));
    }
}

#[test]
fn block_in_corner_is_still_life() {
    let start = grid("1,1\n1,1");
    let next = advance(&start);
    assert!(cells(&next) == cells(&start));
}

#[test]
fn ragged_rows_are_malformed() {
    assert_eq!(load_area("0,1,0\n1,1\n0,0,0").err(), Some(GridError::MalformedInput));
    assert_eq!(load_area("0,1\n1,1,1").err(), Some(GridError::MalformedInput));
}

#[test]
fn bad_token_is_malformed() {
    assert_eq!(load_area("0,2\n1,1").err(), Some(GridError::MalformedInput));
    assert_eq!(load_area("0,1\n1,").err(), Some(GridError::MalformedInput));
    assert_eq!(load_area("0, 1").err(), Some(GridError::MalformedInput));
    assert_eq!(load_area("00,1").err(), Some(GridError::MalformedInput));
}

#[test]
fn empty_text_is_malformed() {
    assert_eq!(load_area("").err(), Some(GridError::MalformedInput));
    assert_eq!(load_area("\n").err(), Some(GridError::MalformedInput));
    assert_eq!(load_area("0,1\n\n1,0").err(), Some(GridError::MalformedInput));
}

#[test]
fn line_endings_are_accepted() {
    let a = grid("0,1\r\n1,0\r\n");
    assert_eq!(a.height(), 2);
    assert_eq!(a.width(), 2);
    assert_eq!(text(&a), "\n-*\n*-");
    let b = grid("1\n");
    assert_eq!(b.height(), 1);
    assert_eq!(b.width(), 1);
    assert_eq!(b.get(&Point { row: 0, col: 0 }), State::Alive);
}

#[test]
fn advance_keeps_dimensions() {
    let a = grid("1,0,1,1,0\n0,1,1,0,0\n1,1,1,1,1");
    let b = advance(&a);
    assert_eq!(b.height(), 3);
    assert_eq!(b.width(), 5);
    let c = grid("1");
    let d = advance(&c);
    assert_eq!((d.height(), d.width()), (1, 1));
}

#[test]
fn get_outside_is_dead() {
    let a = grid("1,1\n1,1");
    assert_eq!(a.get(&Point { row: 2, col: 0 }), State::Dead);
    assert_eq!(a.get(&Point { row: 0, col: 2 }), State::Dead);
    assert_eq!(a.get(&Point { row: usize::MAX, col: usize::MAX }), State::Dead);
    assert_eq!(a.get(&Point { row: 1, col: 1 }), State::Alive);
}

#[test]
fn two_neighbours_keep_state() {
    // (1,1) alive with two live neighbours; (1,3) dead with two.
    let a = grid("1,0,1,0,1\n0,1,0,0,0\n0,0,0,0,0");
    assert_eq!(count_neighbours(&Point { row: 1, col: 1 }, &a), 2);
    assert_eq!(count_neighbours(&Point { row: 1, col: 3 }, &a), 2);
    assert_eq!(next_state(&Point { row: 1, col: 1 }, &a), State::Alive);
    assert_eq!(next_state(&Point { row: 1, col: 3 }, &a), State::Dead);
    let b = advance(&a);
    assert_eq!(b.get(&Point { row: 1, col: 1 }), State::Alive);
    assert_eq!(b.get(&Point { row: 1, col: 3 }), State::Dead);
}

#[test]
fn three_neighbours_give_life() {
    let a = grid("1,1,0\n1,0,0\n0,0,0");
    assert_eq!(count_neighbours(&Point { row: 1, col: 1 }, &a), 3);
    assert_eq!(next_state(&Point { row: 1, col: 1 }, &a), State::Alive);
    let b = grid("1,1,0\n1,1,0\n0,0,0");
    assert_eq!(count_neighbours(&Point { row: 1, col: 1 }, &b), 3);
    assert_eq!(next_state(&Point { row: 1, col: 1 }, &b), State::Alive);
}

#[test]
fn other_counts_give_death() {
    let full = grid("1,1,1\n1,1,1\n1,1,1");
    assert_eq!(count_neighbours(&Point { row: 1, col: 1 }, &full), 8);
    assert_eq!(next_state(&Point { row: 1, col: 1 }, &full), State::Dead);
    let four = grid("1,0,1\n0,1,0\n1,0,1");
    assert_eq!(count_neighbours(&Point { row: 1, col: 1 }, &four), 4);
    assert_eq!(next_state(&Point { row: 1, col: 1 }, &four), State::Dead);
    let one = grid("1,0,0\n0,1,0\n0,0,0");
    assert_eq!(count_neighbours(&Point { row: 1, col: 1 }, &one), 1);
    assert_eq!(next_state(&Point { row: 1, col: 1 }, &one), State::Dead);
    let none = grid("0,0,0\n0,1,0\n0,0,0");
    assert_eq!(count_neighbours(&Point { row: 1, col: 1 }, &none), 0);
}

#[test]
fn corners_and_edges_count_no_wraparound() {
    let a = grid("1,0,1\n0,0,0\n1,0,1");
    assert_eq!(count_neighbours(&Point { row: 0, col: 0 }, &a), 0);
    assert_eq!(count_neighbours(&Point { row: 2, col: 2 }, &a), 0);
    assert_eq!(count_neighbours(&Point { row: 0, col: 1 }, &a), 2);
    assert_eq!(count_neighbours(&Point { row: 1, col: 0 }, &a), 2);
    assert_eq!(count_neighbours(&Point { row: 1, col: 1 }, &a), 4);
    assert_eq!(count_neighbours(&Point { row: 3, col: 3 }, &a), 1);
    assert_eq!(count_neighbours(&Point { row: usize::MAX, col: usize::MAX }, &a), 0);
}

#[test]
fn all_dead_grid_is_fixed() {
    let a = Area::new(4, 6);
    let b = advance(&a);
    assert!(cells(&b) == cells(&a));
    assert_eq!(text(&b), "\n------\n------\n------\n------");
}

#[test]
fn set_then_get() {
    let mut a = Area::new(2, 3);
    a.set(&Point { row: 1, col: 2 }, State::Alive);
    assert_eq!(a.get(&Point { row: 1, col: 2 }), State::Alive);
    assert_eq!(a.get(&Point { row: 0, col: 2 }), State::Dead);
    a.set(&Point { row: 1, col: 2 }, State::Dead);
    assert_eq!(a.get(&Point { row: 1, col: 2 }), State::Dead);
}

#[test]
fn from_rows_checks_shape() {
    let ok = Area::from_rows(vec![vec![State::Alive, State::Dead], vec![State::Dead, State::Dead]]);
    assert!(ok.is_ok());
    let ragged = Area::from_rows(vec![vec![State::Alive], vec![State::Dead, State::Dead]]);
    assert_eq!(ragged.err(), Some(GridError::MalformedInput));
    assert_eq!(Area::from_rows(vec![]).err(), Some(GridError::MalformedInput));
    assert_eq!(Area::from_rows(vec![vec![]]).err(), Some(GridError::MalformedInput));
}

#[test]
fn update_grid_matches_advance() {
    let a = grid("0,1,0,0\n0,0,1,0\n1,1,1,0\n0,0,0,0");
    let expected = advance(&a);
    let mut b = grid("0,1,0,0\n0,0,1,0\n1,1,1,0\n0,0,0,0");
    update_grid(&mut b);
    assert!(cells(&b) == cells(&expected));
    assert_eq!(text(&b), "\n----\n*-*-\n-**-\n-*--");
}
