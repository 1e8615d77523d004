use grid_games::minesweeper::{
    count_adjacent_bombs, render_board, zero_fill, MinesweeperCell, MinesweeperGame, RevealOutcome,
};
use grid_games::render::{CellLabel, Emphasis};
use grid_games::GameError;

const OWNER: u64 = 11;

fn board_with_bombs(bombs: &[usize]) -> Vec<MinesweeperCell> {
    let mut b = Vec::new();
    for i in 0..25 {
        if bombs.contains(&i) {
            b.push(MinesweeperCell::Bomb);
        } else {
            b.push(MinesweeperCell::Safe);
        }
    }
    b
}

fn session_with_board(bombs: &[usize]) -> MinesweeperGame {
    MinesweeperGame {
        player: OWNER,
        mines: bombs.len(),
        start_time: Some(100),
        board: Some(board_with_bombs(bombs)),
    }
}

#[test]
fn first_reveal_is_never_a_bomb() {
    // Every mine count from 0 to 24, every first-click index: the clicked
    // cell is revealed, never exploded.
    for mines in 0..25 {
        for index in [0, 4, 7, 12, 24] {
            let mut game = MinesweeperGame::new(OWNER, mines);
            let r = game.reveal_cell(index, OWNER, 42);
            let board = game.board.as_ref().expect("board generated");
            assert_eq!(board[index], MinesweeperCell::Checked);
            match r.expect("owner may reveal") {
                RevealOutcome::Lost { .. } => panic!("first reveal lost"),
                RevealOutcome::AlreadyRevealed => panic!("fresh board has no revealed cell"),
                _ => {}
            }
        }
    }
}

#[test]
fn generated_board_has_exactly_the_configured_mines() {
    // Would fail if the sampler handed back all 24 candidates, none, or
    // repeated positions.
    for mines in [0, 1, 3, 23, 24] {
        let mut game = MinesweeperGame::new(OWNER, mines);
        game.reveal_cell(12, OWNER, 0).expect("owner may reveal");
        let board = game.board.as_ref().unwrap();
        let bombs = board
            .iter()
            .filter(|c| matches!(c, MinesweeperCell::Bomb))
            .count();
        assert_eq!(bombs, mines);
        assert_eq!(board.len(), 25);
    }
}

#[test]
fn reveal_by_stranger_is_rejected() {
    let mut game = MinesweeperGame::new(OWNER, 3);
    let r = game.reveal_cell(0, OWNER + 1, 0);
    assert_eq!(r, Err(GameError::NotYourGame));
    assert!(game.board.is_none());
}

#[test]
fn single_bomb_center_reveal_cascades_to_win() {
    // One bomb at the center: every other cell belongs to one connected
    // zero-region plus its numbered border, so one click clears the board.
    let mut game = session_with_board(&[12]);
    let r = game.reveal_cell(0, OWNER, 160).expect("owner may reveal");
    match r {
        RevealOutcome::Won { revealed, bombs, elapsed } => {
            assert_eq!(revealed.len(), 24);
            assert_eq!(bombs, 1);
            assert_eq!(elapsed, 60);
        }
        _ => panic!("expected a win"),
    }
    let board = game.board.as_ref().unwrap();
    for i in 0..25 {
        if i == 12 {
            assert_eq!(board[i], MinesweeperCell::Bomb);
        } else {
            assert_eq!(board[i], MinesweeperCell::Checked);
        }
    }
}

#[test]
fn numbered_cell_reveals_only_itself() {
    // Bombs at 1 and 6 give cell 0 an adjacent count of 2: no cascade.
    let mut game = session_with_board(&[1, 6]);
    let r = game.reveal_cell(0, OWNER, 0).expect("owner may reveal");
    match r {
        RevealOutcome::Continue { revealed } => assert_eq!(revealed, vec![0]),
        _ => panic!("expected the game to continue"),
    }
    let board = game.board.as_ref().unwrap();
    assert_eq!(board[0], MinesweeperCell::Checked);
    assert_eq!(board[5], MinesweeperCell::Safe);
}

#[test]
fn revealing_a_revealed_cell_is_a_no_op() {
    let mut game = session_with_board(&[1, 6]);
    game.reveal_cell(0, OWNER, 0).expect("owner may reveal");
    let before = game.board.clone();
    let r = game.reveal_cell(0, OWNER, 5).expect("owner may reveal");
    assert!(matches!(r, RevealOutcome::AlreadyRevealed));
    assert_eq!(game.board, before);
}

#[test]
fn revealing_a_bomb_loses_with_exact_numbers() {
    let mut game = session_with_board(&[3, 17]);
    // cell 2 sits next to the bomb at 3: it reveals alone, so exactly one
    // cell is cleared when the bomb goes off
    game.reveal_cell(2, OWNER, 130).expect("owner may reveal");
    let r = game.reveal_cell(3, OWNER, 175).expect("owner may reveal");
    match r {
        RevealOutcome::Lost { exploded, bombs, cleared, total, elapsed } => {
            assert_eq!(exploded, 3);
            assert_eq!(bombs, 2);
            assert_eq!(cleared, 1);
            assert_eq!(total, 23);
            assert_eq!(elapsed, 75);
        }
        _ => panic!("expected a loss"),
    }
}

#[test]
fn adjacent_bomb_counts_are_exact_and_bounded() {
    let board = board_with_bombs(&[0, 1, 2]);
    assert_eq!(count_adjacent_bombs(&board, 6), 3);
    assert_eq!(count_adjacent_bombs(&board, 5), 2);
    assert_eq!(count_adjacent_bombs(&board, 3), 1);
    assert_eq!(count_adjacent_bombs(&board, 24), 0);
    let crowded = board_with_bombs(&[6, 7, 8, 11, 13, 16, 17, 18]);
    assert_eq!(count_adjacent_bombs(&crowded, 12), 8);
    for i in 0..25 {
        assert!(count_adjacent_bombs(&crowded, i) <= 8);
    }
}

#[test]
fn flood_fill_is_idempotent_on_its_own_output() {
    let board = board_with_bombs(&[12, 3]);
    let mut start = vec![false; 25];
    start[0] = true;
    let once = zero_fill(&board, start);
    let again = zero_fill(&board, once.clone());
    assert_eq!(again, once);
}

#[test]
fn initial_render_is_fully_hidden_and_enabled() {
    let game = MinesweeperGame::new(OWNER, 3);
    let grid = render_board(&game, &Vec::new(), false);
    assert_eq!(grid.len(), 5);
    for (y, row) in grid.iter().enumerate() {
        assert_eq!(row.len(), 5);
        for (x, cell) in row.iter().enumerate() {
            assert_eq!(cell.index, y * 5 + x);
            assert_eq!(cell.label, CellLabel::Hidden);
            assert_eq!(cell.emphasis, Emphasis::Neutral);
            assert!(!cell.disabled);
        }
    }
}

#[test]
fn final_render_shows_bombs_and_digits_disabled() {
    let mut game = session_with_board(&[3]);
    game.reveal_cell(20, OWNER, 0).expect("owner may reveal");
    let grid = render_board(&game, &vec![3], true);
    let bomb_cell = grid[0][3];
    assert_eq!(bomb_cell.label, CellLabel::BombTile);
    assert_eq!(bomb_cell.emphasis, Emphasis::Danger);
    assert!(bomb_cell.disabled);
    // cell 7 is a revealed cell next to the bomb at 3
    let digit_cell = grid[1][2];
    assert_eq!(digit_cell.label, CellLabel::Digit(1));
    assert_eq!(digit_cell.emphasis, Emphasis::Success);
    assert!(digit_cell.disabled);
    // every cell is disabled once the game ended
    for row in &grid {
        for cell in row {
            assert!(cell.disabled);
        }
    }
}

#[test]
fn zero_mines_first_click_clears_everything() {
    let mut game = MinesweeperGame::new(OWNER, 0);
    let r = game.reveal_cell(7, OWNER, 9).expect("owner may reveal");
    match r {
        RevealOutcome::Won { revealed, bombs, elapsed } => {
            assert_eq!(revealed.len(), 25);
            assert_eq!(bombs, 0);
            assert_eq!(elapsed, 0);
        }
        _ => panic!("expected an immediate win"),
    }
}
