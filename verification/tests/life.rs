use life_world::game_rule::GameRule;

/// Collects the live cells of `g` as `(x, y)` pairs, row by row.
fn live_cells(g: &GameRule) -> Vec<(usize, usize)> {
    let mut out = Vec::new();
    for y in 0..g.height() {
        for x in 0..g.width() {
            if g.is_alive(x, y) {
                out.push((x, y));
            }
        }
    }
    out
}

#[test]
fn dimensions_are_kept_by_step() {
    let mut g = GameRule::new(4, 3);
    assert_eq!(g.width(), 4);
    assert_eq!(g.height(), 3);
    g.set_alive(1, 1);
    g.step();
    assert_eq!(g.width(), 4);
    assert_eq!(g.height(), 3);
    g.step();
    assert_eq!(g.width(), 4);
    assert_eq!(g.height(), 3);
}

#[test]
fn empty_grid_stays_empty() {
    let mut g = GameRule::new(5, 4);
    assert_eq!(live_cells(&g), vec![]);
    g.step();
    assert_eq!(live_cells(&g), vec![]);
    g.step();
    assert_eq!(live_cells(&g), vec![]);
}

#[test]
fn zero_sized_grids_are_valid_and_step_is_a_noop() {
    let mut g = GameRule::new(0, 0);
    g.step();
    assert_eq!(g.width(), 0);
    assert_eq!(g.height(), 0);

    let mut wide = GameRule::new(3, 0);
    wide.step();
    assert_eq!(wide.width(), 3);
    assert_eq!(wide.height(), 0);

    let mut tall = GameRule::new(0, 2);
    tall.step();
    assert_eq!(tall.width(), 0);
    assert_eq!(tall.height(), 2);
    assert_eq!(live_cells(&tall), vec![]);
}

#[test]
fn seeding_is_idempotent() {
    let mut g = GameRule::new(3, 3);
    g.set_alive(2, 0);
    g.set_alive(2, 0);
    assert_eq!(live_cells(&g), vec![(2, 0)]);
}

#[test]
fn block_is_a_still_life() {
    // A 2x2 live square at (1,1)..(2,2) in a 4x4 grid: every live cell has
    // exactly 3 live neighbors, every dead cell at most 2.
    let mut g = GameRule::new(4, 4);
    g.set_alive(1, 1);
    g.set_alive(2, 1);
    g.set_alive(1, 2);
    g.set_alive(2, 2);
    let before = live_cells(&g);
    g.step();
    assert_eq!(live_cells(&g), before);
    g.step();
    assert_eq!(live_cells(&g), before);
}

#[test]
fn block_in_a_corner_is_still_a_still_life() {
    let mut g = GameRule::new(4, 4);
    g.set_alive(0, 0);
    g.set_alive(1, 0);
    g.set_alive(0, 1);
    g.set_alive(1, 1);
    let before = live_cells(&g);
    g.step();
    assert_eq!(live_cells(&g), before);
}

#[test]
fn blinker_oscillates_with_period_two() {
    // Three live cells in a line through (2,2) of a 5x5 grid: the ends have 1
    // live neighbor and die, the middle has 2 and survives, and the two cells
    // beside the middle each see exactly 3 live cells and are born. One step
    // yields the perpendicular line; a second step restores the original.
    let mut g = GameRule::new(5, 5);
    g.set_alive(2, 1);
    g.set_alive(2, 2);
    g.set_alive(2, 3);
    g.step();
    assert_eq!(live_cells(&g), vec![(1, 2), (2, 2), (3, 2)]);
    g.step();
    assert_eq!(live_cells(&g), vec![(2, 1), (2, 2), (2, 3)]);
}

#[test]
fn lone_cell_starves_in_the_interior() {
    let mut g = GameRule::new(5, 5);
    g.set_alive(2, 2);
    g.step();
    assert_eq!(live_cells(&g), vec![]);
}

#[test]
fn lone_cell_starves_in_a_corner() {
    // A corner cell has only 3 neighbor slots, all dead: it dies too.
    let mut g = GameRule::new(3, 3);
    g.set_alive(0, 0);
    g.step();
    assert_eq!(live_cells(&g), vec![]);

    let mut far = GameRule::new(3, 3);
    far.set_alive(2, 2);
    far.step();
    assert_eq!(live_cells(&far), vec![]);
}

#[test]
fn the_grid_does_not_wrap_around() {
    // (0,0) is dead with exactly 3 live neighbors: (1,0), (0,1), (1,1).
    // The far corner (3,3) is also alive; were the grid wrapped, it would be
    // a fourth neighbor of (0,0) and suppress the birth. With hard edges,
    // (0,0) is born and the far corner, with no live neighbors, starves.
    let mut g = GameRule::new(4, 4);
    g.set_alive(1, 0);
    g.set_alive(0, 1);
    g.set_alive(1, 1);
    g.set_alive(3, 3);
    g.step();
    assert!(g.is_alive(0, 0));
    assert!(!g.is_alive(3, 3));
}
