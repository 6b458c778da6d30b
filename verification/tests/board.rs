use conway::board::{build_board, ConwayGame};

fn board_from(width: usize, height: usize, live: &[(usize, usize)]) -> ConwayGame {
    let mut g = build_board(width, height);
    for &(line, column) in live {
        g.set_tile(line, column, 1);
    }
    g
}

fn live_positions(g: &ConwayGame) -> Vec<(usize, usize)> {
    let mut out = Vec::new();
    for line in 0..g.height {
        for column in 0..g.width {
            if g.get_tile(line, column) == 1 {
                out.push((line, column));
            }
        }
    }
    out
}

#[test]
fn build_board_dimensions_and_dead_cells() {
    let g = build_board(4, 3);
    assert_eq!(g.width, 4);
    assert_eq!(g.height, 3);
    assert_eq!(g.game.len(), 12);
    for line in 0..3 {
        for column in 0..4 {
            assert_eq!(g.get_tile(line, column), 0);
        }
    }
}

#[test]
fn set_tile_and_get_tile_round_trip() {
    let mut g = build_board(3, 3);
    g.set_tile(1, 2, 1);
    assert_eq!(g.get_tile(1, 2), 1);
    assert_eq!(g.get_tile(2, 1), 0);
    assert_eq!(g.game.len(), 9);
    g.set_tile(1, 2, 0);
    assert_eq!(g.get_tile(1, 2), 0);
}

#[test]
fn neighbour_count_center_and_corner_of_full_grid() {
    let all: Vec<(usize, usize)> = (0..3).flat_map(|l| (0..3).map(move |c| (l, c))).collect();
    let g = board_from(3, 3, &all);
    assert_eq!(g.neighbour_count(1, 1), 8);
    assert_eq!(g.neighbour_count(0, 0), 3);
    assert_eq!(g.neighbour_count(0, 2), 3);
    assert_eq!(g.neighbour_count(2, 0), 3);
    assert_eq!(g.neighbour_count(2, 2), 3);
    assert_eq!(g.neighbour_count(0, 1), 5);
}

#[test]
fn neighbour_count_non_square_edges() {
    let g = board_from(5, 2, &[(0, 0), (0, 4), (1, 2)]);
    assert_eq!(g.neighbour_count(0, 0), 0);
    assert_eq!(g.neighbour_count(1, 0), 1);
    assert_eq!(g.neighbour_count(0, 3), 2);
    assert_eq!(g.neighbour_count(1, 4), 1);
}

#[test]
fn dead_cell_with_three_neighbours_is_born() {
    let mut g = board_from(3, 3, &[(0, 0), (0, 2), (2, 1)]);
    assert_eq!(g.neighbour_count(1, 1), 3);
    g.step();
    assert_eq!(g.get_tile(1, 1), 1);
}

#[test]
fn live_cell_with_one_neighbour_dies() {
    let mut g = board_from(4, 4, &[(1, 1), (1, 2)]);
    g.step();
    assert_eq!(g.get_tile(1, 1), 0);
    assert_eq!(g.get_tile(1, 2), 0);
}

#[test]
fn live_cell_with_two_or_three_neighbours_survives() {
    // The middle of a line of three has two live neighbours.
    let mut line = board_from(5, 5, &[(2, 1), (2, 2), (2, 3)]);
    assert_eq!(line.neighbour_count(2, 2), 2);
    line.step();
    assert_eq!(line.get_tile(2, 2), 1);

    // Every cell of a block has three live neighbours.
    let mut block = board_from(4, 4, &[(1, 1), (1, 2), (2, 1), (2, 2)]);
    assert_eq!(block.neighbour_count(1, 1), 3);
    block.step();
    assert_eq!(block.get_tile(1, 1), 1);
}

#[test]
fn live_cell_with_four_neighbours_dies() {
    let mut g = board_from(3, 3, &[(1, 1), (0, 0), (0, 2), (2, 0), (2, 2)]);
    assert_eq!(g.neighbour_count(1, 1), 4);
    g.step();
    assert_eq!(g.get_tile(1, 1), 0);
}

#[test]
fn block_still_life_is_stable() {
    let mut g = board_from(4, 4, &[(1, 1), (1, 2), (2, 1), (2, 2)]);
    g.step();
    assert_eq!(live_positions(&g), vec![(1, 1), (1, 2), (2, 1), (2, 2)]);
}

#[test]
fn blinker_oscillates_with_period_two() {
    let mut g = board_from(5, 5, &[(2, 1), (2, 2), (2, 3)]);
    g.step();
    assert_eq!(live_positions(&g), vec![(1, 2), (2, 2), (3, 2)]);
    g.step();
    assert_eq!(live_positions(&g), vec![(2, 1), (2, 2), (2, 3)]);
}

#[test]
fn lone_cell_dies_of_isolation() {
    let mut g = board_from(3, 3, &[(1, 1)]);
    g.step();
    assert_eq!(live_positions(&g), Vec::<(usize, usize)>::new());

    let mut big = board_from(7, 5, &[(2, 3)]);
    big.step();
    assert_eq!(live_positions(&big), Vec::<(usize, usize)>::new());
}

#[test]
fn center_of_full_grid_dies_of_overcrowding() {
    let all: Vec<(usize, usize)> = (0..3).flat_map(|l| (0..3).map(move |c| (l, c))).collect();
    let mut g = board_from(3, 3, &all);
    g.step();
    assert_eq!(g.get_tile(1, 1), 0);
    // The corners each had three live neighbours and survive.
    assert_eq!(live_positions(&g), vec![(0, 0), (0, 2), (2, 0), (2, 2)]);
}

#[test]
fn no_generation_leakage_in_step() {
    // With a naive in-place pass in row-major order, the newly born cell
    // at (1,2) would be counted as a neighbour of (2,1), which would then
    // wrongly survive with two neighbours instead of dying with one.
    let mut g = board_from(5, 5, &[(2, 1), (2, 2), (2, 3)]);
    g.step();
    assert_eq!(g.get_tile(2, 1), 0);
    assert_eq!(g.get_tile(2, 3), 0);
}

#[test]
fn render_cells_shape() {
    let mut g = board_from(4, 3, &[(0, 0), (2, 3)]);
    let s = g.to_string();
    assert_eq!(s.len(), 3 * (4 + 1));
    let lines: Vec<&str> = s.split_terminator('\n').collect();
    assert_eq!(lines.len(), 3);
    for line in &lines {
        assert_eq!(line.len(), 4);
        assert!(line.chars().all(|ch| ch == ' ' || ch == 'S'));
    }
    g.step();
    let after = g.to_string();
    assert_eq!(after.split_terminator('\n').count(), 3);
}

#[test]
fn render_cells_exact_text() {
    let g = board_from(2, 2, &[(0, 0), (1, 1)]);
    assert_eq!(g.to_string(), "S \n S\n");
}

#[test]
fn render_neighbour_counts_exact_text() {
    let g = board_from(3, 2, &[(0, 0), (0, 1)]);
    assert_eq!(g.to_string_neighbour(), "111\n221\n");
}

#[test]
fn neighbour_indices_corner_edge_and_center() {
    let g = build_board(3, 3);
    assert_eq!(g.get_neighbour_index(0, 0), vec![1, 3, 4]);
    assert_eq!(g.get_neighbour_index(0, 1), vec![0, 2, 3, 4, 5]);
    assert_eq!(g.get_neighbour_index(1, 1), vec![0, 1, 2, 3, 5, 6, 7, 8]);
    assert_eq!(g.get_neighbour_index(2, 2), vec![4, 5, 7]);
}

#[test]
fn neighbour_indices_non_square() {
    let g = build_board(4, 2);
    assert_eq!(g.get_neighbour_index(1, 3), vec![2, 3, 6]);
    assert_eq!(g.get_neighbour_index(0, 2), vec![1, 3, 5, 6, 7]);
}

#[test]
fn generate_random_keeps_shape_and_single_bit_cells() {
    let mut g = build_board(6, 4);
    g.generate_random();
    assert_eq!(g.width, 6);
    assert_eq!(g.height, 4);
    assert_eq!(g.game.len(), 24);
    for line in 0..4 {
        for column in 0..6 {
            let v = g.get_tile(line, column);
            assert!(v == 0 || v == 1);
        }
    }
}
