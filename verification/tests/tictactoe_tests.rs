use grid_games::render::{CellLabel, Emphasis};
use grid_games::tictactoe::{PlayOutcome, TictactoeCell, TictactoeGame};
use grid_games::GameError;

const ALICE: u64 = 1;
const BOB: u64 = 2;

fn joined_game(size: usize) -> TictactoeGame {
    let mut g = TictactoeGame::new(ALICE, size);
    g.join(BOB, 50).expect("opponent may join");
    g
}

#[test]
fn fresh_game_is_empty_and_awaiting() {
    let g = TictactoeGame::new(ALICE, 3);
    assert_eq!(g.board.len(), 9);
    assert!(g.board.iter().all(|c| c.is_none()));
    assert!(g.player2.is_none());
    assert_eq!(g.turn, TictactoeCell::X);
    assert!(g.start_time.is_none());
}

#[test]
fn joining_own_game_is_rejected() {
    let mut g = TictactoeGame::new(ALICE, 3);
    assert_eq!(g.join(ALICE, 50), Err(GameError::SelfJoin));
    assert!(g.player2.is_none());
}

#[test]
fn second_join_is_rejected_and_changes_nothing() {
    let mut g = joined_game(3);
    let board_before = g.board.clone();
    let r = g.join(7, 60);
    assert_eq!(r, Err(GameError::AlreadyJoined));
    assert_eq!(g.player2, Some(BOB));
    assert_eq!(g.board, board_before);
    assert_eq!(g.start_time, Some(50));
}

#[test]
fn top_row_wins_with_the_full_line_reported() {
    // X@0, O@4, X@1, O@5, X@2: the top row fills with X and wins.
    let mut g = joined_game(3);
    assert!(matches!(g.play(0, ALICE), Ok(PlayOutcome::Continue { cell: 0, next_player: BOB })));
    assert!(matches!(g.play(4, BOB), Ok(PlayOutcome::Continue { cell: 4, next_player: ALICE })));
    assert!(matches!(g.play(1, ALICE), Ok(PlayOutcome::Continue { cell: 1, next_player: BOB })));
    assert!(matches!(g.play(5, BOB), Ok(PlayOutcome::Continue { cell: 5, next_player: ALICE })));
    match g.play(2, ALICE) {
        Ok(PlayOutcome::Won { line, winner }) => {
            assert_eq!(line, vec![0, 1, 2]);
            assert_eq!(winner, ALICE);
        }
        other => panic!("expected a win, got {:?}", win_kind(&other)),
    }
}

fn win_kind(r: &Result<PlayOutcome, GameError>) -> &'static str {
    match r {
        Ok(PlayOutcome::Continue { .. }) => "continue",
        Ok(PlayOutcome::Won { .. }) => "won",
        Ok(PlayOutcome::Tied { .. }) => "tied",
        Err(_) => "error",
    }
}

#[test]
fn full_board_without_a_line_ties() {
    // X: 0, 2, 3, 7, 8 / O: 1, 4, 5, 6 — no uniform line anywhere.
    let mut g = joined_game(3);
    for (cell, who) in [(0, ALICE), (1, BOB), (2, ALICE), (4, BOB), (3, ALICE), (5, BOB), (7, ALICE), (6, BOB)] {
        assert!(matches!(g.play(cell, who), Ok(PlayOutcome::Continue { .. })));
    }
    assert!(matches!(g.play(8, ALICE), Ok(PlayOutcome::Tied { cell: 8 })));
}

#[test]
fn turn_alternates_only_on_successful_moves() {
    let mut g = joined_game(3);
    assert_eq!(g.turn, TictactoeCell::X);
    g.play(0, ALICE).expect("valid move");
    assert_eq!(g.turn, TictactoeCell::O);

    // wrong player: rejected, turn unchanged
    assert_eq!(g.play(3, ALICE), Err(GameError::NotYourTurn));
    assert_eq!(g.turn, TictactoeCell::O);

    // occupied cell: rejected, board and turn unchanged
    let board_before = g.board.clone();
    assert_eq!(g.play(0, BOB), Err(GameError::InvariantViolation));
    assert_eq!(g.board, board_before);
    assert_eq!(g.turn, TictactoeCell::O);

    // stranger: rejected
    assert_eq!(g.play(3, 99), Err(GameError::NotYourGame));
    assert_eq!(g.turn, TictactoeCell::O);

    g.play(4, BOB).expect("valid move");
    assert_eq!(g.turn, TictactoeCell::X);
}

#[test]
fn column_diagonal_and_anti_diagonal_wins_are_found() {
    // column 1: X@1, X@4, X@7
    let mut g = joined_game(3);
    g.play(1, ALICE).unwrap();
    g.play(0, BOB).unwrap();
    g.play(4, ALICE).unwrap();
    g.play(2, BOB).unwrap();
    match g.play(7, ALICE) {
        Ok(PlayOutcome::Won { line, winner }) => {
            assert_eq!(line, vec![1, 4, 7]);
            assert_eq!(winner, ALICE);
        }
        _ => panic!("expected a column win"),
    }

    // main diagonal: X@0, X@4, X@8
    let mut g = joined_game(3);
    g.play(0, ALICE).unwrap();
    g.play(1, BOB).unwrap();
    g.play(4, ALICE).unwrap();
    g.play(2, BOB).unwrap();
    match g.play(8, ALICE) {
        Ok(PlayOutcome::Won { line, .. }) => assert_eq!(line, vec![0, 4, 8]),
        _ => panic!("expected a diagonal win"),
    }

    // anti-diagonal: X@2, X@4, X@6
    let mut g = joined_game(3);
    g.play(2, ALICE).unwrap();
    g.play(0, BOB).unwrap();
    g.play(4, ALICE).unwrap();
    g.play(1, BOB).unwrap();
    match g.play(6, ALICE) {
        Ok(PlayOutcome::Won { line, .. }) => assert_eq!(line, vec![2, 4, 6]),
        _ => panic!("expected an anti-diagonal win"),
    }
}

#[test]
fn four_by_four_row_win() {
    // N = 4: a full second row of X wins.
    let mut g = joined_game(4);
    g.play(4, ALICE).unwrap();
    g.play(0, BOB).unwrap();
    g.play(5, ALICE).unwrap();
    g.play(1, BOB).unwrap();
    g.play(6, ALICE).unwrap();
    g.play(2, BOB).unwrap();
    match g.play(7, ALICE) {
        Ok(PlayOutcome::Won { line, .. }) => assert_eq!(line, vec![4, 5, 6, 7]),
        _ => panic!("expected a row win"),
    }
}

#[test]
fn render_marks_filled_cells_and_highlights_moves() {
    let mut g = joined_game(3);
    g.play(4, ALICE).unwrap();
    let grid = g.render_board(&vec![4]);
    assert_eq!(grid.len(), 3);
    let center = grid[1][1];
    assert_eq!(center.index, 4);
    assert_eq!(center.label, CellLabel::Mark(TictactoeCell::X));
    assert_eq!(center.emphasis, Emphasis::Highlighted);
    assert!(center.disabled);
    let corner = grid[0][0];
    assert_eq!(corner.label, CellLabel::Blank);
    assert_eq!(corner.emphasis, Emphasis::Neutral);
    assert!(!corner.disabled);
}

#[test]
fn render_of_finished_game_disables_everything() {
    let mut g = joined_game(3);
    g.play(0, ALICE).unwrap();
    g.play(3, BOB).unwrap();
    g.play(1, ALICE).unwrap();
    g.play(4, BOB).unwrap();
    let line = match g.play(2, ALICE) {
        Ok(PlayOutcome::Won { line, .. }) => line,
        _ => panic!("expected a win"),
    };
    let grid = g.render_board(&line);
    for row in &grid {
        for cell in row {
            assert!(cell.disabled);
        }
    }
    assert_eq!(grid[0][0].emphasis, Emphasis::Success);
    assert_eq!(grid[0][1].emphasis, Emphasis::Success);
    assert_eq!(grid[0][2].emphasis, Emphasis::Success);
    assert_eq!(grid[1][0].emphasis, Emphasis::Neutral);
}
