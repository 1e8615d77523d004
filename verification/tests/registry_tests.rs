use grid_games::minesweeper::{MinesweeperCell, MinesweeperGame};
use grid_games::registry::{
    MinesweeperGames, MinesweeperResponse, TictactoeGames, TictactoeResponse,
};
use grid_games::render::CellLabel;
use grid_games::GameError;

const ALICE: u64 = 1;
const BOB: u64 = 2;

#[test]
fn action_on_unknown_minesweeper_session_expires_with_no_enabled_cell() {
    let mut games = MinesweeperGames::new();
    match games.apply_action(42, 12, ALICE, 0) {
        MinesweeperResponse::Expired { grid } => {
            let enabled = grid.iter().flatten().filter(|c| !c.disabled).count();
            assert_eq!(enabled, 0);
            assert!(grid.is_empty());
        }
        _ => panic!("expected the expired fallback"),
    }
}

#[test]
fn action_on_unknown_tictactoe_session_expires_with_no_enabled_cell() {
    let mut games = TictactoeGames::new();
    match games.play_action(42, 0, ALICE) {
        TictactoeResponse::Expired { grid } => {
            let enabled = grid.iter().flatten().filter(|c| !c.disabled).count();
            assert_eq!(enabled, 0);
        }
        _ => panic!("expected the expired fallback"),
    }
    match games.join_action(42, BOB, 0) {
        TictactoeResponse::Expired { grid } => assert!(grid.is_empty()),
        _ => panic!("expected the expired fallback"),
    }
}

#[test]
fn minesweeper_start_renders_a_hidden_enabled_grid() {
    let mut games = MinesweeperGames::new();
    let grid = games.start(7, ALICE, 3);
    assert_eq!(grid.len(), 5);
    for row in &grid {
        assert_eq!(row.len(), 5);
        for cell in row {
            assert_eq!(cell.label, CellLabel::Hidden);
            assert!(!cell.disabled);
        }
    }
}

#[test]
fn losing_reveal_removes_the_session() {
    let mut games = MinesweeperGames::new();
    let mut board = Vec::new();
    for i in 0..25 {
        board.push(if i == 3 { MinesweeperCell::Bomb } else { MinesweeperCell::Safe });
    }
    games.create(
        9,
        MinesweeperGame { player: ALICE, mines: 1, start_time: Some(10), board: Some(board) },
    );
    match games.apply_action(9, 3, ALICE, 70) {
        MinesweeperResponse::Finished { won, bombs, cleared, total, elapsed, .. } => {
            assert!(!won);
            assert_eq!(bombs, 1);
            assert_eq!(cleared, 0);
            assert_eq!(total, 24);
            assert_eq!(elapsed, 60);
        }
        _ => panic!("expected a finished game"),
    }
    // the terminal session is gone
    assert!(matches!(games.apply_action(9, 0, ALICE, 80), MinesweeperResponse::Expired { .. }));
}

#[test]
fn stranger_action_is_rejected_and_session_stays() {
    let mut games = MinesweeperGames::new();
    let mut board = Vec::new();
    for i in 0..25 {
        // bombs beside cell 0 keep its reveal from cascading
        board.push(if i == 1 || i == 6 { MinesweeperCell::Bomb } else { MinesweeperCell::Safe });
    }
    games.create(
        7,
        MinesweeperGame { player: ALICE, mines: 2, start_time: Some(0), board: Some(board) },
    );
    assert!(matches!(games.apply_action(7, 0, BOB, 0), MinesweeperResponse::NotYourGame));
    // still there for the owner, and the reveal is applied
    match games.apply_action(7, 0, ALICE, 0) {
        MinesweeperResponse::Updated { revealed, anomaly, .. } => {
            assert_eq!(revealed, vec![0]);
            assert!(!anomaly);
        }
        _ => panic!("expected an in-progress update"),
    }
    // the same cell again: tolerated as a no-op anomaly
    assert!(matches!(
        games.apply_action(7, 0, ALICE, 1),
        MinesweeperResponse::Updated { anomaly: true, .. }
    ));
}

#[test]
fn tictactoe_full_match_through_the_registry() {
    let mut games = TictactoeGames::new();
    games.start(5, ALICE, 3);

    // the owner cannot join their own game
    assert!(matches!(
        games.join_action(5, ALICE, 20),
        TictactoeResponse::Rejected { error: GameError::SelfJoin }
    ));

    // a move before anyone joined is a routing anomaly
    assert!(matches!(
        games.play_action(5, 0, ALICE),
        TictactoeResponse::Rejected { error: GameError::InvariantViolation }
    ));

    match games.join_action(5, BOB, 20) {
        TictactoeResponse::Joined { grid, next_player } => {
            assert_eq!(next_player, ALICE);
            assert_eq!(grid.len(), 3);
            assert!(grid.iter().flatten().all(|c| !c.disabled));
        }
        _ => panic!("expected the join to succeed"),
    }

    // a second join is turned away
    assert!(matches!(
        games.join_action(5, 9, 21),
        TictactoeResponse::Rejected { error: GameError::AlreadyJoined }
    ));

    // an index outside the 3 x 3 board is a routing anomaly
    assert!(matches!(
        games.play_action(5, 9, ALICE),
        TictactoeResponse::Rejected { error: GameError::InvariantViolation }
    ));

    for (cell, who, next) in [(0, ALICE, BOB), (4, BOB, ALICE), (1, ALICE, BOB), (5, BOB, ALICE)] {
        match games.play_action(5, cell, who) {
            TictactoeResponse::Moved { next_player, .. } => assert_eq!(next_player, next),
            _ => panic!("expected the move to be applied"),
        }
    }

    match games.play_action(5, 2, ALICE) {
        TictactoeResponse::Finished { grid, highlight, winner } => {
            assert_eq!(winner, Some(ALICE));
            assert_eq!(highlight, vec![0, 1, 2]);
            assert!(grid.iter().flatten().all(|c| c.disabled));
        }
        _ => panic!("expected the game to be won"),
    }

    // the finished session was removed
    assert!(matches!(games.play_action(5, 8, BOB), TictactoeResponse::Expired { .. }));
}

#[test]
fn restarting_a_session_id_overwrites_the_old_game() {
    let mut games = TictactoeGames::new();
    games.start(5, ALICE, 3);
    games.join_action(5, BOB, 0);
    // the same id started again: the old game is gone, joining is open again
    games.start(5, ALICE, 3);
    assert!(matches!(games.join_action(5, BOB, 1), TictactoeResponse::Joined { .. }));
}
