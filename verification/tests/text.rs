use game_of_life::cell::Cell;
use game_of_life::universe::Universe;

#[test]
fn render_draws_one_line_per_row() {
    let mut u = Universe::new(2, 2);
    u.set_cells(&[(0, 1)]);
    assert_eq!(u.render(), "◻ ◼ \n◻ ◻ \n");
}

#[test]
fn render_of_a_full_row_grid() {
    let u = Universe::from_cells(3, 1, vec![Cell::Alive, Cell::Alive, Cell::Alive]);
    assert_eq!(u.render(), "◼ ◼ ◼ \n");
}

#[test]
fn render_is_deterministic_for_equal_states() {
    let mut a = Universe::new(4, 3);
    a.set_cells(&[(0, 0), (1, 2), (2, 3)]);
    let mut b = Universe::new(4, 3);
    b.set_cells(&[(2, 3), (1, 2), (0, 0)]);
    assert_eq!(a.render(), b.render());
    assert_eq!(a.render(), a.render());
}

#[test]
fn render_does_not_change_the_universe() {
    let mut u = Universe::new(3, 3);
    u.set_cells(&[(1, 1)]);
    let before = u.get_cells().to_vec();
    let _ = u.render();
    assert_eq!(u.get_cells(), before.as_slice());
    assert_eq!(u.width(), 3);
    assert_eq!(u.height(), 3);
}

#[test]
fn toggle_flips_both_ways() {
    let mut c = Cell::Dead;
    c.toggle();
    assert_eq!(c, Cell::Alive);
    c.toggle();
    assert_eq!(c, Cell::Dead);
}
