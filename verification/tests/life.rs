use game_of_life::life_iteration::{CellState, Coords, LifeIteration};

fn generation_of(points: &[(isize, isize)]) -> LifeIteration {
    let mut g = LifeIteration::new();
    for &(x, y) in points {
        g.insert(Coords::new(x, y));
    }
    g
}

fn sorted_points(g: &LifeIteration) -> Vec<(isize, isize)> {
    let mut v: Vec<(isize, isize)> = g.cells.iter().map(|c| (c.x, c.y)).collect();
    v.sort();
    v
}

fn assert_same_set(g: &LifeIteration, expected: &[(isize, isize)]) {
    let mut e: Vec<(isize, isize)> = expected.to_vec();
    e.sort();
    assert_eq!(sorted_points(g), e);
}

#[test]
fn isolated_cell_dies() {
    let g = generation_of(&[(5, 7)]);
    let next = g.get_next_life_iteration();
    assert!(next.is_empty());
    assert_eq!(next.cells.len(), 0);
}

#[test]
fn block_is_still_life() {
    let g = generation_of(&[(0, 0), (1, 0), (0, 1), (1, 1)]);
    let next = g.get_next_life_iteration();
    assert_same_set(&next, &[(0, 0), (1, 0), (0, 1), (1, 1)]);
}

#[test]
fn blinker_oscillates_with_period_two() {
    let g = generation_of(&[(1, 0), (2, 0), (3, 0)]);
    let next = g.get_next_life_iteration();
    assert_same_set(&next, &[(2, -1), (2, 0), (2, 1)]);
    let back = next.get_next_life_iteration();
    assert_same_set(&back, &[(1, 0), (2, 0), (3, 0)]);
}

#[test]
fn transition_is_deterministic() {
    let points = [(0, 0), (1, 0), (1, 1), (2, 1), (0, 2)];
    let a = generation_of(&points).get_next_life_iteration();
    let b = generation_of(&points).get_next_life_iteration();
    assert_eq!(sorted_points(&a), sorted_points(&b));
}

#[test]
fn dead_cell_with_three_neighbors_is_born() {
    // (1, 1) is dead with exactly 3 live neighbors; every other dead cell
    // around this L-shape has fewer and must stay dead.
    let g = generation_of(&[(0, 0), (1, 0), (0, 1)]);
    let next = g.get_next_life_iteration();
    assert!(next.contains(&Coords::new(1, 1)));
    assert_same_set(&next, &[(0, 0), (1, 0), (0, 1), (1, 1)]);
}

#[test]
fn dead_cell_with_two_neighbors_stays_dead() {
    let g = generation_of(&[(0, 0), (2, 0)]);
    let next = g.get_next_life_iteration();
    assert!(!next.contains(&Coords::new(1, 0)));
    assert!(next.is_empty());
}

#[test]
fn neighbor_coords_are_the_moore_neighborhood() {
    let c = Coords::new(10, 20);
    let n = c.get_neighbor_coords();
    let mut got: Vec<(isize, isize)> = n.iter().map(|c| (c.x, c.y)).collect();
    got.sort();
    let mut expected = vec![
        (9, 19),
        (9, 20),
        (9, 21),
        (10, 19),
        (10, 21),
        (11, 19),
        (11, 20),
        (11, 21),
    ];
    expected.sort();
    assert_eq!(got, expected);
}

#[test]
fn neighbor_coords_come_in_a_fixed_order() {
    let c = Coords::new(0, 0);
    let got: Vec<(isize, isize)> = c.get_neighbor_coords().iter().map(|c| (c.x, c.y)).collect();
    assert_eq!(
        got,
        vec![(-1, 1), (-1, 0), (-1, -1), (0, -1), (0, 1), (1, 1), (1, 0), (1, -1)]
    );
}

#[test]
fn next_state_follows_the_rule() {
    for n in 0..9usize {
        let live = Coords::get_next_state(n, CellState::Alive);
        let dead = Coords::get_next_state(n, CellState::Dead);
        assert_eq!(live == CellState::Alive, n == 2 || n == 3);
        assert_eq!(dead == CellState::Alive, n == 3);
    }
}

#[test]
fn count_live_neighbors_is_exact() {
    let g = generation_of(&[(0, 0), (1, 0), (0, 1), (5, 5)]);
    assert_eq!(g.count_live_neighbors(1, 1), 3);
    assert_eq!(g.count_live_neighbors(0, 0), 2);
    assert_eq!(g.count_live_neighbors(5, 5), 0);
    assert_eq!(g.count_live_neighbors(-3, -3), 0);
}

#[test]
fn insert_and_remove_edit_the_set() {
    let mut g = LifeIteration::new();
    assert!(g.is_empty());
    g.insert(Coords::new(3, 4));
    g.insert(Coords::new(3, 4));
    assert_eq!(g.cells.len(), 1);
    assert!(g.contains(&Coords::new(3, 4)));
    g.insert(Coords::new(-1, 0));
    g.remove(Coords::new(3, 4));
    assert!(!g.contains(&Coords::new(3, 4)));
    assert_same_set(&g, &[(-1, 0)]);
}

#[test]
fn in_safe_range_rejects_edge_cells() {
    let g = generation_of(&[(0, 0), (40, 2)]);
    assert!(g.in_safe_range());
    let edge = generation_of(&[(isize::MAX, 0)]);
    assert!(!edge.in_safe_range());
}

#[test]
fn viewport_keeps_only_visible_cells_and_leaves_the_set_whole() {
    let g = generation_of(&[(1, 1), (100, 50), (-2, 3)]);
    let small: Vec<(isize, isize)> = g.viewport_cells(10, 10).iter().map(|c| (c.x, c.y)).collect();
    assert_eq!(small, vec![(1, 1)]);
    // the authoritative set still holds the off-screen cells
    assert!(g.contains(&Coords::new(100, 50)));
    assert!(g.contains(&Coords::new(-2, 3)));
    // growing the viewport makes the off-screen cell reappear
    let mut large: Vec<(isize, isize)> =
        g.viewport_cells(200, 100).iter().map(|c| (c.x, c.y)).collect();
    large.sort();
    assert_eq!(large, vec![(1, 1), (100, 50)]);
}
