use life::grid::{rule, seed_cells, step, Grid, GridError};

fn grid_of(width: usize, height: usize, live: &[(usize, usize)]) -> Grid {
    match Grid::with_live_cells(width, height, &live.to_vec()) {
        Ok(g) => g,
        Err(e) => panic!("grid refused: {:?}", e),
    }
}

fn live_cells(g: &Grid) -> Vec<(usize, usize)> {
    let mut out = Vec::new();
    for y in 0..g.height() {
        for x in 0..g.width() {
            if g.is_alive(y, x) {
                out.push((y, x));
            }
        }
    }
    out
}

#[test]
fn new_grid_is_all_dead() {
    let g = Grid::new(4, 3).ok().unwrap();
    assert_eq!(g.width(), 4);
    assert_eq!(g.height(), 3);
    assert_eq!(g.cells().len(), 3);
    assert!(g.cells().iter().all(|row| row.len() == 4 && row.iter().all(|c| !c)));
}

#[test]
fn zero_dimensions_are_refused() {
    assert_eq!(Grid::new(0, 5).err(), Some(GridError::ZeroWidth));
    assert_eq!(Grid::new(5, 0).err(), Some(GridError::ZeroHeight));
    assert_eq!(Grid::new(0, 0).err(), Some(GridError::ZeroWidth));
    assert_eq!(Grid::with_live_cells(0, 3, &vec![]).err(), Some(GridError::ZeroWidth));
    assert_eq!(Grid::with_live_cells(3, 0, &vec![]).err(), Some(GridError::ZeroHeight));
}

#[test]
fn live_cell_outside_is_refused() {
    assert_eq!(Grid::with_live_cells(3, 3, &vec![(0, 0), (3, 1)]).err(), Some(GridError::OutOfBounds));
    assert_eq!(Grid::with_live_cells(3, 3, &vec![(1, 3)]).err(), Some(GridError::OutOfBounds));
}

#[test]
fn live_cells_are_placed() {
    let g = grid_of(5, 4, &[(0, 4), (3, 0), (2, 2), (2, 2)]);
    assert_eq!(live_cells(&g), vec![(0, 4), (2, 2), (3, 0)]);
}

#[test]
fn seed_is_a_row_of_three() {
    assert_eq!(seed_cells(), vec![(10, 10), (10, 11), (10, 12)]);
    let g = Grid::with_live_cells(20, 15, &seed_cells()).ok().unwrap();
    assert_eq!(live_cells(&g), vec![(10, 10), (10, 11), (10, 12)]);
    assert_eq!(Grid::with_live_cells(12, 15, &seed_cells()).err(), Some(GridError::OutOfBounds));
}

#[test]
fn step_keeps_dimensions() {
    let g = grid_of(7, 3, &[(0, 0), (1, 1), (2, 6)]);
    let n = g.step();
    assert_eq!(n.width(), 7);
    assert_eq!(n.height(), 3);
    assert!(n.cells().iter().all(|row| row.len() == 7));
}

#[test]
fn step_is_deterministic_and_leaves_input() {
    let live = [(1, 1), (1, 2), (2, 1), (3, 3), (0, 4)];
    let g = grid_of(6, 5, &live);
    let before = g.cells().clone();
    let a = g.step();
    let b = g.step();
    assert_eq!(a.cells(), b.cells());
    assert_eq!(g.cells(), &before);
    let other = grid_of(6, 5, &live);
    assert_eq!(other.step().cells(), a.cells());
}

#[test]
fn rule_table() {
    for n in 0u8..=8 {
        assert_eq!(rule(true, n), n == 2 || n == 3, "alive with {}", n);
        assert_eq!(rule(false, n), n == 3, "dead with {}", n);
    }
    assert!(!rule(true, 0));
    assert!(!rule(true, 1));
    assert!(rule(true, 2));
    assert!(rule(true, 3));
    assert!(!rule(true, 4));
    assert!(!rule(true, 8));
    assert!(rule(false, 3));
    assert!(!rule(false, 2));
    assert!(!rule(false, 4));
}

#[test]
fn neighbor_count_in_the_interior() {
    let g = grid_of(5, 5, &[(1, 1), (1, 2), (1, 3), (2, 1), (2, 3), (3, 1), (3, 2), (3, 3), (2, 2)]);
    assert_eq!(g.neighbor_count(2, 2), 8);
    assert_eq!(g.neighbor_count(1, 1), 3);
    assert_eq!(g.neighbor_count(0, 0), 1);
    assert_eq!(g.neighbor_count(0, 2), 3);
}

#[test]
fn corner_wraps_to_the_other_corners() {
    let g = grid_of(5, 4, &[(0, 0)]);
    assert_eq!(g.neighbor_count(3, 4), 1);
    assert_eq!(g.neighbor_count(3, 0), 1);
    assert_eq!(g.neighbor_count(0, 4), 1);
    assert_eq!(g.neighbor_count(2, 2), 0);
    assert_eq!(g.neighbor_count(0, 0), 0);
}

#[test]
fn wrapped_cells_are_born() {
    // Three live cells on the last column make a birth on the first.
    let g = grid_of(6, 6, &[(1, 5), (2, 5), (3, 5)]);
    let n = g.step();
    assert!(n.is_alive(2, 0));
    assert!(n.is_alive(2, 4));
    assert!(n.is_alive(2, 5));
    assert_eq!(live_cells(&n), vec![(2, 0), (2, 4), (2, 5)]);
}

#[test]
fn block_is_still() {
    let block = [(2, 2), (2, 3), (3, 2), (3, 3)];
    let g = grid_of(6, 6, &block);
    let n = g.step();
    assert_eq!(n.cells(), g.cells());
    assert_eq!(n.step().cells(), g.cells());
    let wide = grid_of(9, 5, &[(1, 4), (1, 5), (2, 4), (2, 5)]);
    assert_eq!(wide.step().cells(), wide.cells());
}

#[test]
fn blinker_oscillates() {
    let g = grid_of(5, 5, &[(2, 1), (2, 2), (2, 3)]);
    let once = g.step();
    assert_eq!(live_cells(&once), vec![(1, 2), (2, 2), (3, 2)]);
    let twice = once.step();
    assert_eq!(twice.cells(), g.cells());
}

#[test]
fn blinker_oscillates_on_a_rectangle() {
    let g = grid_of(12, 8, &[(4, 6), (4, 7), (4, 8)]);
    let once = g.step();
    assert_eq!(live_cells(&once), vec![(3, 7), (4, 7), (5, 7)]);
    assert_eq!(live_cells(&once.step()), vec![(4, 6), (4, 7), (4, 8)]);
}

#[test]
fn single_cell_grid() {
    let alive = grid_of(1, 1, &[(0, 0)]);
    assert_eq!(alive.neighbor_count(0, 0), 8);
    assert!(!alive.step().is_alive(0, 0));
    let dead = grid_of(1, 1, &[]);
    assert_eq!(dead.neighbor_count(0, 0), 0);
    assert!(!dead.step().is_alive(0, 0));
}

#[test]
fn step_on_rows() {
    let rows = vec![
        vec![false, false, false, false, false],
        vec![false, false, true, false, false],
        vec![false, false, true, false, false],
        vec![false, false, true, false, false],
        vec![false, false, false, false, false],
    ];
    let next = step(rows.clone(), 5, 5);
    let expected = vec![
        vec![false, false, false, false, false],
        vec![false, false, false, false, false],
        vec![false, true, true, true, false],
        vec![false, false, false, false, false],
        vec![false, false, false, false, false],
    ];
    assert_eq!(next, expected);
    assert_eq!(step(next, 5, 5), rows);
}

#[test]
fn render_text_draws_two_characters_per_cell() {
    let g = grid_of(3, 2, &[(0, 0), (1, 2)]);
    assert_eq!(g.render_text(), "\u{2588}\u{2588}    \n    \u{2588}\u{2588}\n");
    let dead = grid_of(1, 1, &[]);
    assert_eq!(dead.render_text(), "  \n");
}
