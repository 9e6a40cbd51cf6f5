use tictactoe::board::{Board, CellState, GameState, MoveError};

use CellState::{Empty, O, X};

fn play(b: &mut Board, moves: &[(i32, i32)]) {
    for &(r, c) in moves {
        b.click_cell(r, c).unwrap();
    }
}

#[test]
fn new_board_is_empty_with_x_to_move() {
    let b = Board::new();
    assert_eq!(b.cells, [[Empty; 3]; 3]);
    assert_eq!(b.state, GameState::XTurn);
}

#[test]
fn turns_alternate_on_fresh_cells() {
    let mut b = Board::new();
    let moves = [(1, 1), (0, 0), (2, 2), (0, 2)];
    let expected = [GameState::OTurn, GameState::XTurn, GameState::OTurn, GameState::XTurn];
    for (i, &(r, c)) in moves.iter().enumerate() {
        let snap = b.click_cell(r, c).unwrap();
        assert_eq!(snap.state, expected[i]);
    }
    assert_eq!(b.cells, [[O, Empty, O], [Empty, X, Empty], [Empty, Empty, X]]);
}

#[test]
fn second_click_on_same_cell_changes_nothing() {
    let mut b = Board::new();
    let first = b.click_cell(2, 1).unwrap();
    let second = b.click_cell(2, 1).unwrap();
    assert_eq!(first.cells, second.cells);
    assert_eq!(first.state, second.state);
    assert_eq!(second.cells[2][1], X);
    assert_eq!(second.state, GameState::OTurn);
}

#[test]
fn reset_after_a_game_gives_empty_board() {
    let mut b = Board::new();
    play(&mut b, &[(0, 0), (1, 1), (0, 1), (2, 2), (0, 2)]);
    assert_eq!(b.state, GameState::XWon);
    b.reset();
    assert_eq!(b.cells, [[Empty; 3]; 3]);
    assert_eq!(b.state, GameState::XTurn);
}

#[test]
fn reset_mid_game_gives_empty_board() {
    let mut b = Board::new();
    play(&mut b, &[(1, 2)]);
    b.reset();
    assert_eq!(b.cells, [[Empty; 3]; 3]);
    assert_eq!(b.state, GameState::XTurn);
}

#[test]
fn top_row_wins_for_x() {
    let mut b = Board::new();
    play(&mut b, &[(0, 0), (2, 0), (0, 1), (1, 2)]);
    assert_eq!(b.state, GameState::XTurn);
    let snap = b.click_cell(0, 2).unwrap();
    assert_eq!(snap.state, GameState::XWon);
}

#[test]
fn scenario_x_wins_top_row() {
    let mut b = Board::new();
    play(&mut b, &[(0, 0), (1, 1), (0, 1), (2, 2)]);
    let snap = b.click_cell(0, 2).unwrap();
    assert_eq!(snap.state, GameState::XWon);
    assert_eq!(snap.cells[0], [X, X, X]);
    assert_eq!(b.state, GameState::XWon);
}

#[test]
fn o_wins_a_column() {
    let mut b = Board::new();
    play(&mut b, &[(0, 0), (0, 1), (2, 2), (1, 1), (1, 0)]);
    let snap = b.click_cell(2, 1).unwrap();
    assert_eq!(snap.state, GameState::OWon);
}

#[test]
fn full_board_without_line_is_draw() {
    let mut b = Board::new();
    play(&mut b, &[(0, 0), (0, 1), (0, 2), (1, 1), (1, 0), (2, 0), (2, 1), (1, 2)]);
    assert_eq!(b.state, GameState::XTurn);
    let snap = b.click_cell(2, 2).unwrap();
    assert_eq!(snap.state, GameState::Draw);
    assert_eq!(snap.cells, [[X, O, X], [X, O, O], [O, X, X]]);
}

#[test]
fn last_move_filling_board_with_line_wins() {
    let mut b = Board::new();
    play(&mut b, &[(0, 0), (0, 1), (0, 2), (1, 0), (1, 1), (1, 2), (2, 1), (2, 0)]);
    assert_eq!(b.state, GameState::XTurn);
    let snap = b.click_cell(2, 2).unwrap();
    assert_eq!(snap.state, GameState::XWon);
    assert!(b.is_draw());
}

#[test]
fn occupied_cell_returns_prior_snapshot() {
    let mut b = Board::new();
    play(&mut b, &[(1, 1), (0, 0)]);
    let before = b;
    let snap = b.click_cell(1, 1).unwrap();
    assert_eq!(snap.cells, before.cells);
    assert_eq!(snap.state, before.state);
    assert_eq!(b.cells, before.cells);
    assert_eq!(b.state, GameState::XTurn);
}

#[test]
fn out_of_range_row_is_refused() {
    let mut b = Board::new();
    play(&mut b, &[(1, 1)]);
    let before = b;
    assert_eq!(b.click_cell(5, 0).unwrap_err(), MoveError::OutOfBounds { row: 5, col: 0 });
    assert_eq!(b.cells, before.cells);
    assert_eq!(b.state, before.state);
}

#[test]
fn negative_column_is_refused() {
    let mut b = Board::new();
    assert_eq!(b.click_cell(0, -1).unwrap_err(), MoveError::OutOfBounds { row: 0, col: -1 });
    assert_eq!(b.cells, [[Empty; 3]; 3]);
    assert_eq!(b.state, GameState::XTurn);
}

#[test]
fn moves_after_a_win_are_ignored() {
    let mut b = Board::new();
    play(&mut b, &[(0, 0), (1, 1), (0, 1), (2, 2), (0, 2)]);
    let snap = b.click_cell(2, 0).unwrap();
    assert_eq!(snap.state, GameState::XWon);
    assert_eq!(snap.cells[2][0], Empty);
}

#[test]
fn make_move_places_and_passes_turn() {
    let mut b = Board::new();
    b.make_move(2, 0);
    assert_eq!(b.cells[2][0], X);
    assert_eq!(b.state, GameState::OTurn);
    b.make_move(0, 2);
    assert_eq!(b.cells[0][2], O);
    assert_eq!(b.state, GameState::XTurn);
}

#[test]
fn make_move_after_game_over_does_nothing() {
    let mut b = Board::new();
    b.state = GameState::Draw;
    b.make_move(1, 1);
    assert_eq!(b.cells, [[Empty; 3]; 3]);
    assert_eq!(b.state, GameState::Draw);
}

#[test]
fn is_draw_only_on_full_grid() {
    let mut b = Board::new();
    assert!(!b.is_draw());
    b.cells = [[X, O, X], [X, O, O], [O, X, X]];
    assert!(b.is_draw());
    b.cells[1][2] = Empty;
    assert!(!b.is_draw());
}

#[test]
fn check_win_finds_anti_diagonal() {
    let mut b = Board::new();
    b.cells = [[Empty, Empty, O], [Empty, O, X], [O, X, X]];
    b.state = GameState::XTurn;
    b.check_win();
    assert_eq!(b.state, GameState::OWon);
}

#[test]
fn check_win_last_complete_line_decides() {
    let mut b = Board::new();
    b.cells = [[X, X, X], [Empty, Empty, Empty], [O, O, O]];
    b.check_win();
    assert_eq!(b.state, GameState::OWon);
    b.cells = [[O, Empty, X], [O, Empty, X], [O, Empty, X]];
    b.state = GameState::OTurn;
    b.check_win();
    assert_eq!(b.state, GameState::XWon);
}

#[test]
fn check_win_without_line_keeps_state() {
    let mut b = Board::new();
    b.cells = [[X, O, X], [X, O, O], [O, X, X]];
    b.state = GameState::OTurn;
    b.check_win();
    assert_eq!(b.state, GameState::OTurn);
    assert_eq!(b.cells, [[X, O, X], [X, O, O], [O, X, X]]);
}
