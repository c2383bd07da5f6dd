use game_of_life::cell::Cell;
use game_of_life::universe::Universe;

fn live_coords(u: &Universe) -> Vec<(u32, u32)> {
    let mut out = Vec::new();
    for row in 0..u.height() {
        for col in 0..u.width() {
            let idx = (row * u.width() + col) as usize;
            if u.get_cells()[idx] == Cell::Alive {
                out.push((row, col));
            }
        }
    }
    out
}

#[test]
fn new_universe_is_all_dead() {
    let u = Universe::new(7, 5);
    assert_eq!(u.width(), 7);
    assert_eq!(u.height(), 5);
    assert_eq!(u.get_cells().len(), 35);
    assert!(u.get_cells().iter().all(|&c| c == Cell::Dead));
}

#[test]
fn from_cells_keeps_the_supplied_pattern() {
    let pattern = vec![Cell::Alive, Cell::Dead, Cell::Dead, Cell::Alive, Cell::Dead, Cell::Alive];
    let u = Universe::from_cells(3, 2, pattern.clone());
    assert_eq!(u.width(), 3);
    assert_eq!(u.height(), 2);
    assert_eq!(u.get_cells(), pattern.as_slice());
    assert_eq!(u.cells().as_slice(), pattern.as_slice());
}

#[test]
fn dimension_invariant_holds_after_every_operation() {
    let mut u = Universe::new(6, 4);
    assert_eq!(u.get_cells().len(), 24);
    u.set_cells(&[(0, 0), (3, 5)]);
    assert_eq!(u.get_cells().len(), 24);
    u.toggle_cell(2, 2);
    assert_eq!(u.get_cells().len(), 24);
    u.tick();
    assert_eq!(u.get_cells().len(), 24);
    u.clear();
    assert_eq!(u.get_cells().len(), 24);
    u.set_width(3);
    assert_eq!(u.get_cells().len(), (u.width() * u.height()) as usize);
    u.set_height(9);
    assert_eq!(u.get_cells().len(), (u.width() * u.height()) as usize);
}

#[test]
fn neighbour_count_is_eight_on_a_full_grid() {
    let u = Universe::from_cells(3, 3, vec![Cell::Alive; 9]);
    for row in 0..3 {
        for col in 0..3 {
            assert_eq!(u.live_neighbour_count(row, col), 8);
        }
    }
}

#[test]
fn neighbour_count_is_zero_on_an_empty_grid() {
    let u = Universe::new(4, 4);
    for row in 0..4 {
        for col in 0..4 {
            assert_eq!(u.live_neighbour_count(row, col), 0);
        }
    }
}

#[test]
fn corners_wrap_around_both_edges() {
    let mut u = Universe::new(4, 3);
    u.set_cells(&[(0, 0)]);
    // The live cell at (0, 0) is seen across the wrap by all three far corners.
    assert_eq!(u.live_neighbour_count(2, 3), 1);
    assert_eq!(u.live_neighbour_count(2, 0), 1);
    assert_eq!(u.live_neighbour_count(0, 3), 1);
    // And vice versa: a live far corner is a neighbour of (0, 0).
    let mut v = Universe::new(4, 3);
    v.set_cells(&[(2, 3)]);
    assert_eq!(v.live_neighbour_count(0, 0), 1);
}

#[test]
fn blinker_oscillates_with_period_two() {
    let mut u = Universe::new(5, 5);
    u.set_cells(&[(2, 1), (2, 2), (2, 3)]);
    let horizontal = u.get_cells().to_vec();
    u.tick();
    assert_eq!(live_coords(&u), vec![(1, 2), (2, 2), (3, 2)]);
    u.tick();
    assert_eq!(u.get_cells(), horizontal.as_slice());
}

#[test]
fn isolated_block_is_a_still_life() {
    let mut u = Universe::new(4, 4);
    u.set_cells(&[(1, 1), (1, 2), (2, 1), (2, 2)]);
    let block = u.get_cells().to_vec();
    for _ in 0..5 {
        u.tick();
        assert_eq!(u.get_cells(), block.as_slice());
    }
}

#[test]
fn lone_cell_dies_of_underpopulation() {
    let mut u = Universe::new(3, 3);
    u.set_cells(&[(1, 1)]);
    u.tick();
    assert!(u.get_cells().iter().all(|&c| c == Cell::Dead));
}

#[test]
fn toggle_twice_restores_the_cell_and_touches_nothing_else() {
    let mut u = Universe::new(5, 4);
    u.set_cells(&[(0, 0), (3, 4)]);
    let before = u.get_cells().to_vec();
    u.toggle_cell(2, 3);
    assert_eq!(u.get_cells()[(2 * 5 + 3) as usize], Cell::Alive);
    let mut expected = before.clone();
    expected[2 * 5 + 3] = Cell::Alive;
    assert_eq!(u.get_cells(), expected.as_slice());
    u.toggle_cell(2, 3);
    assert_eq!(u.get_cells(), before.as_slice());
}

#[test]
fn set_cells_leaves_unlisted_cells_untouched() {
    let mut u = Universe::new(3, 3);
    u.toggle_cell(0, 0);
    u.set_cells(&[(1, 1), (2, 2)]);
    assert_eq!(live_coords(&u), vec![(0, 0), (1, 1), (2, 2)]);
}

#[test]
fn resize_kills_every_cell() {
    let mut u = Universe::new(4, 4);
    u.set_cells(&[(0, 0), (1, 1), (2, 2), (3, 3)]);
    u.set_width(6);
    assert_eq!(u.width(), 6);
    assert_eq!(u.height(), 4);
    assert_eq!(u.get_cells().len(), 24);
    assert!(u.get_cells().iter().all(|&c| c == Cell::Dead));

    let mut v = Universe::new(4, 4);
    v.set_cells(&[(3, 3)]);
    v.set_height(2);
    assert_eq!(v.width(), 4);
    assert_eq!(v.height(), 2);
    assert_eq!(v.get_cells().len(), 8);
    assert!(v.get_cells().iter().all(|&c| c == Cell::Dead));
}

#[test]
fn clear_kills_every_cell_and_keeps_dimensions() {
    let mut u = Universe::new(5, 3);
    u.set_cells(&[(0, 0), (2, 4)]);
    u.clear();
    assert_eq!(u.width(), 5);
    assert_eq!(u.height(), 3);
    assert_eq!(u.get_cells().len(), 15);
    assert!(u.get_cells().iter().all(|&c| c == Cell::Dead));
}

#[test]
fn overpopulated_cell_dies_and_reproduction_fills_gaps() {
    // A plus sign: the centre has four live neighbours and dies; the four
    // diagonal corners of the inner ring see exactly three and are born.
    let mut u = Universe::new(7, 7);
    u.set_cells(&[(3, 3), (2, 3), (4, 3), (3, 2), (3, 4)]);
    u.tick();
    let live = live_coords(&u);
    assert!(!live.contains(&(3, 3)));
    assert!(live.contains(&(2, 2)));
    assert!(live.contains(&(2, 4)));
    assert!(live.contains(&(4, 2)));
    assert!(live.contains(&(4, 4)));
}
