use game_of_life::board::{get_next_board, Board};
use game_of_life::cell::CellState;
use game_of_life::pattern::{insert_pattern, Pattern};

fn live_cells(board: &Board) -> Vec<(i32, i32)> {
    let mut cells = Vec::new();
    for y in 0..board.height() {
        for x in 0..board.width() {
            if board.get_cell_state((x, y)) == CellState::Alive {
                cells.push((x, y));
            }
        }
    }
    cells
}

fn board_of(width: i32, height: i32, cells: &[(i32, i32)]) -> Board {
    let mut board = Board::new(width, height);
    for cell in cells {
        board.set_cell_state(*cell, CellState::Alive);
    }
    board
}

#[test]
fn step_keeps_dimensions() {
    let board = Board::new(7, 3);
    let next = get_next_board(&board);
    assert_eq!(next.width(), 7);
    assert_eq!(next.height(), 3);
    assert_eq!(live_cells(&next), vec![]);
}

#[test]
fn step_leaves_the_input_alone() {
    let board = board_of(64, 20, &[(1, 0), (1, 1), (1, 2)]);
    let before = board.render();
    let _ = get_next_board(&board);
    assert_eq!(board.render(), before);
}

#[test]
fn blinker_updates_from_a_snapshot() {
    // A vertical bar of three. Scanning in place, the top cell would die first
    // and the middle cell would then count one neighbour fewer.
    let board = board_of(64, 20, &[(5, 4), (5, 5), (5, 6)]);
    let next = get_next_board(&board);
    assert_eq!(live_cells(&next), vec![(4, 5), (5, 5), (6, 5)]);
    let again = get_next_board(&next);
    assert_eq!(live_cells(&again), vec![(5, 4), (5, 5), (5, 6)]);
}

#[test]
fn step_differs_from_an_in_place_scan() {
    let board = board_of(64, 20, &[(5, 4), (5, 5), (5, 6)]);

    let mut scanned = board_of(64, 20, &[(5, 4), (5, 5), (5, 6)]);
    for y in 0..20 {
        for x in 0..64 {
            let state = scanned.get_next_cell_state((x, y));
            scanned.set_cell_state((x, y), state);
        }
    }

    let next = get_next_board(&board);
    assert_ne!(live_cells(&next), live_cells(&scanned));
    for y in 0..20 {
        for x in 0..64 {
            assert_eq!(next.get_cell_state((x, y)), board.get_next_cell_state((x, y)));
        }
    }
}

#[test]
fn glider_returns_after_four_generations() {
    let mut board = Board::new(64, 20);
    insert_pattern(&mut board, Pattern::Glider, (0, 0));
    assert_eq!(live_cells(&board), vec![(0, 0), (1, 1), (2, 1), (0, 2), (1, 2)]);

    let mut current = get_next_board(&board);
    for _ in 0..3 {
        assert_ne!(live_cells(&current).len(), 0);
        current = get_next_board(&current);
    }

    let mut moved = Board::new(64, 20);
    insert_pattern(&mut moved, Pattern::Glider, (1, 1));
    assert_eq!(live_cells(&current), live_cells(&moved));
    assert_eq!(current.render(), moved.render());
}

#[test]
fn glider_phases() {
    let mut board = Board::new(64, 20);
    insert_pattern(&mut board, Pattern::Glider, (0, 0));
    let one = get_next_board(&board);
    assert_eq!(live_cells(&one), vec![(1, 0), (2, 1), (0, 2), (1, 2), (2, 2)]);
    let two = get_next_board(&one);
    assert_eq!(live_cells(&two), vec![(0, 1), (2, 1), (1, 2), (2, 2), (1, 3)]);
    let three = get_next_board(&two);
    assert_eq!(live_cells(&three), vec![(2, 1), (0, 2), (2, 2), (1, 3), (2, 3)]);
    let four = get_next_board(&three);
    assert_eq!(live_cells(&four), vec![(1, 1), (2, 2), (3, 2), (1, 3), (2, 3)]);
}

#[test]
fn glider_returns_on_a_five_by_five_board() {
    let mut board = Board::new(5, 5);
    insert_pattern(&mut board, Pattern::Glider, (0, 0));
    let mut current = get_next_board(&board);
    for _ in 0..3 {
        current = get_next_board(&current);
    }
    let mut moved = Board::new(5, 5);
    insert_pattern(&mut moved, Pattern::Glider, (1, 1));
    assert_eq!(live_cells(&current), live_cells(&moved));
}

#[test]
fn glider_breaks_up_on_a_four_by_four_board() {
    let mut board = Board::new(4, 4);
    insert_pattern(&mut board, Pattern::Glider, (0, 0));
    let one = get_next_board(&board);
    assert_eq!(
        live_cells(&one),
        vec![(1, 0), (2, 1), (3, 1), (0, 2), (1, 2), (2, 2), (0, 3), (1, 3)]
    );
}

#[test]
fn glider_travels_round_the_torus() {
    let mut board = Board::new(8, 8);
    insert_pattern(&mut board, Pattern::Glider, (0, 0));
    let start = live_cells(&board);
    let mut current = get_next_board(&board);
    for _ in 1..32 {
        current = get_next_board(&current);
    }
    assert_eq!(live_cells(&current), start);
}

#[test]
fn block_is_a_still_life() {
    let cells = [(10, 10), (11, 10), (10, 11), (11, 11)];
    let board = board_of(64, 20, &cells);
    let start = live_cells(&board);
    let mut current = get_next_board(&board);
    for _ in 0..50 {
        assert_eq!(live_cells(&current), start);
        current = get_next_board(&current);
    }
}

#[test]
fn block_across_the_corner_is_a_still_life() {
    let cells = [(-1, -1), (0, -1), (-1, 0), (0, 0)];
    let board = board_of(64, 20, &cells);
    let start = live_cells(&board);
    assert_eq!(start, vec![(0, 0), (63, 0), (0, 19), (63, 19)]);
    let mut current = get_next_board(&board);
    for _ in 0..10 {
        assert_eq!(live_cells(&current), start);
        current = get_next_board(&current);
    }
}

#[test]
fn block_on_a_three_by_three_board_is_a_still_life() {
    let cells = [(0, 0), (1, 0), (0, 1), (1, 1)];
    let board = board_of(3, 3, &cells);
    let next = get_next_board(&board);
    assert_eq!(live_cells(&next), live_cells(&board));
}

#[test]
fn block_on_a_two_by_two_board_dies() {
    let cells = [(0, 0), (1, 0), (0, 1), (1, 1)];
    let board = board_of(2, 2, &cells);
    let next = get_next_board(&board);
    assert_eq!(live_cells(&next), vec![]);
}

#[test]
fn lone_cell_dies() {
    let board = board_of(64, 20, &[(3, 3)]);
    let next = get_next_board(&board);
    assert_eq!(live_cells(&next), vec![]);
}
