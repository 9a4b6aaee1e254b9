use game_of_life::board::Board;
use game_of_life::cell::CellState;
use game_of_life::pattern::{insert_pattern, seed_cell, Pattern};

fn live_cells(board: &Board) -> Vec<(i32, i32)> {
    let mut cells = Vec::new();
    for y in 0..board.height() {
        for x in 0..board.width() {
            if board.get_cell_state((x, y)) == CellState::Alive {
                cells.push((x, y));
            }
        }
    }
    cells
}

fn sorted(mut cells: Vec<(i32, i32)>) -> Vec<(i32, i32)> {
    cells.sort_by_key(|(x, y)| (*y, *x));
    cells.dedup();
    cells
}

fn glider_at(ox: i64, oy: i64, width: i64, height: i64) -> Vec<(i32, i32)> {
    let shape = [(0, 0), (0, 2), (1, 1), (1, 2), (2, 1)];
    sorted(
        shape
            .iter()
            .map(|(x, y)| ((ox + x).rem_euclid(width) as i32, (oy + y).rem_euclid(height) as i32))
            .collect(),
    )
}

#[test]
fn glider_at_origin() {
    let mut board = Board::new(64, 20);
    insert_pattern(&mut board, Pattern::Glider, (0, 0));
    assert_eq!(live_cells(&board), vec![(0, 0), (1, 1), (2, 1), (0, 2), (1, 2)]);
}

#[test]
fn glider_at_offset() {
    let mut board = Board::new(64, 20);
    insert_pattern(&mut board, Pattern::Glider, (16, 3));
    assert_eq!(live_cells(&board), vec![(16, 3), (17, 4), (18, 4), (16, 5), (17, 5)]);
}

#[test]
fn glider_wraps_round_the_corner() {
    let mut board = Board::new(64, 20);
    insert_pattern(&mut board, Pattern::Glider, (63, 19));
    assert_eq!(live_cells(&board), vec![(0, 0), (1, 0), (0, 1), (63, 1), (63, 19)]);
}

#[test]
fn glider_at_many_offsets() {
    let offsets = [
        (0, 0),
        (-1, -1),
        (62, 18),
        (64, 20),
        (1000, -1000),
        (i32::MAX, i32::MAX),
        (i32::MIN, i32::MIN),
        (i32::MAX, i32::MIN),
    ];
    for (ox, oy) in offsets {
        let mut board = Board::new(64, 20);
        insert_pattern(&mut board, Pattern::Glider, (ox, oy));
        assert_eq!(live_cells(&board), glider_at(ox as i64, oy as i64, 64, 20));
    }
}

#[test]
fn glider_leaves_other_cells_alone() {
    let mut board = Board::new(64, 20);
    board.set_cell_state((40, 10), CellState::Alive);
    board.set_cell_state((1, 0), CellState::Alive);
    board.set_cell_state((0, 0), CellState::Alive);
    insert_pattern(&mut board, Pattern::Glider, (0, 0));
    assert_eq!(
        live_cells(&board),
        vec![(0, 0), (1, 0), (1, 1), (2, 1), (0, 2), (1, 2), (40, 10)]
    );
    assert_eq!(board.width(), 64);
    assert_eq!(board.height(), 20);
}

#[test]
fn glider_on_a_small_board_overlaps_itself() {
    let mut board = Board::new(2, 2);
    insert_pattern(&mut board, Pattern::Glider, (0, 0));
    assert_eq!(live_cells(&board), vec![(0, 0), (1, 0), (0, 1), (1, 1)]);
    let mut single = Board::new(1, 1);
    insert_pattern(&mut single, Pattern::Glider, (5, 5));
    assert_eq!(live_cells(&single), vec![(0, 0)]);
}

#[test]
fn four_gliders_side_by_side() {
    let mut board = Board::new(64, 20);
    for ox in [0, 16, 32, 48] {
        insert_pattern(&mut board, Pattern::Glider, (ox, 0));
    }
    let mut expected = Vec::new();
    for ox in [0, 16, 32, 48] {
        expected.extend(glider_at(ox, 0, 64, 20));
    }
    assert_eq!(live_cells(&board), sorted(expected));
}

#[test]
fn seed_cell_multiple_of_three_gives_life() {
    for value in [0, 3, -3, 6, 2147483646, -2147483646, i32::MIN + 2] {
        assert_eq!(value % 3, 0);
        let mut board = Board::new(64, 20);
        seed_cell(&mut board, (5, 6), value);
        assert_eq!(live_cells(&board), vec![(5, 6)]);
    }
}

#[test]
fn seed_cell_other_values_change_nothing() {
    for value in [1, 2, -1, -2, 4, 5, i32::MAX, i32::MIN] {
        assert_ne!(value % 3, 0);
        let mut board = Board::new(64, 20);
        seed_cell(&mut board, (5, 6), value);
        assert_eq!(live_cells(&board), vec![]);
        board.set_cell_state((5, 6), CellState::Alive);
        seed_cell(&mut board, (5, 6), value);
        assert_eq!(live_cells(&board), vec![(5, 6)]);
    }
}

#[test]
fn seed_cell_wraps_its_point() {
    let mut board = Board::new(64, 20);
    seed_cell(&mut board, (-1, 20), 3);
    assert_eq!(live_cells(&board), vec![(63, 0)]);
}

#[test]
fn random_keeps_living_cells_and_dimensions() {
    let mut board = Board::new(64, 20);
    insert_pattern(&mut board, Pattern::Glider, (7, 7));
    let before = live_cells(&board);
    insert_pattern(&mut board, Pattern::Random, (0, 0));
    assert_eq!(board.width(), 64);
    assert_eq!(board.height(), 20);
    for cell in before {
        assert_eq!(board.get_cell_state(cell), CellState::Alive);
    }
}

#[test]
fn random_fills_about_a_third() {
    let mut board = Board::new(64, 20);
    insert_pattern(&mut board, Pattern::Random, (0, 0));
    let alive = live_cells(&board).len();
    assert!(alive > 200, "{} cells alive", alive);
    assert!(alive < 700, "{} cells alive", alive);
    let right_half = live_cells(&board).iter().filter(|(x, _)| *x >= 32).count();
    assert!(right_half > 0);
}

#[test]
fn random_on_a_full_board_changes_nothing() {
    let mut board = Board::new(5, 4);
    for y in 0..4 {
        for x in 0..5 {
            board.set_cell_state((x, y), CellState::Alive);
        }
    }
    insert_pattern(&mut board, Pattern::Random, (3, 3));
    assert_eq!(live_cells(&board).len(), 20);
}
