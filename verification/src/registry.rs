use vstd::prelude::*;

use std::collections::HashMap;

use crate::GameError;
use crate::minesweeper::{is_ms_render, render_board, MinesweeperGame, RevealOutcome};
use crate::render::CellView;
use crate::tictactoe::{
    as_int_seq, check_win_spec, full_board, is_ttt_render, PlayOutcome, TictactoeGame,
};

verus! {

broadcast use vstd::std_specs::hash::group_hash_axioms;

/// The reply to one minesweeper action: the session was gone, the action
/// was rejected, the game goes on, or it just ended.
pub enum MinesweeperResponse {
    Expired { grid: Vec<Vec<CellView>> },
    NotYourGame,
    Updated { grid: Vec<Vec<CellView>>, revealed: Vec<usize>, anomaly: bool },
    Finished {
        grid: Vec<Vec<CellView>>,
        revealed: Vec<usize>,
        won: bool,
        bombs: usize,
        cleared: usize,
        total: usize,
        elapsed: u64,
    },
}

/// The registry of live minesweeper sessions, keyed by the opaque id of
/// the command invocation that started each game. The caller guards the
/// whole registry with one exclusive lock and holds it across each
/// read-modify-render sequence.
pub struct MinesweeperGames {
    pub games: HashMap<u64, MinesweeperGame>,
}

impl MinesweeperGames {
    /// Every stored session is internally consistent.
    pub open spec fn wf(self) -> bool {
        forall|k: u64| self.games@.contains_key(k) ==> (#[trigger] self.games@[k]).wf()
    }

    /// A session as `start` stores it: no board until the first reveal.
    pub open spec fn fresh_game(owner: u64, mine_count: usize) -> MinesweeperGame {
        MinesweeperGame { player: owner, mines: mine_count, start_time: None, board: None }
    }

    pub fn new() -> (r: MinesweeperGames)
        ensures
            r.wf(),
            r.games@ == Map::<u64, MinesweeperGame>::empty(),
    {
        MinesweeperGames { games: HashMap::new() }
    }

    /// Insert `game` at `id`, overwriting any session previously stored
    /// there (command re-invocation semantics).
    pub fn create(&mut self, id: u64, game: MinesweeperGame)
        requires
            old(self).wf(),
            game.wf(),
        ensures
            final(self).wf(),
            final(self).games@ == old(self).games@.insert(id, game),
    {
        self.games.insert(id, game);
    }

    /// Delete the session at `id`, if any.
    pub fn remove(&mut self, id: u64)
        requires
            old(self).wf(),
        ensures
            final(self).wf(),
            final(self).games@ == old(self).games@.remove(id),
    {
        self.games.remove(&id);
    }

    /// Start a new game for `owner`: store a fresh session at `id` and
    /// render the initial, fully hidden board.
    pub fn start(&mut self, id: u64, owner: u64, mine_count: usize) -> (grid: Vec<Vec<CellView>>)
        requires
            old(self).wf(),
            mine_count < 25,
        ensures
            final(self).wf(),
            final(self).games@ == old(self).games@.insert(id, Self::fresh_game(owner, mine_count)),
            is_ms_render(grid@, Self::fresh_game(owner, mine_count), Seq::<usize>::empty(), false),
    {
        let game = MinesweeperGame::new(owner, mine_count);
        proof {
            assert(game == Self::fresh_game(owner, mine_count));
        }
        let no_selection: Vec<usize> = Vec::new();
        let grid = render_board(&game, &no_selection, false);
        self.create(id, game);
        grid
    }

    /// What `apply_action` guarantees, relating the registry before and
    /// after one action to the reply.
    pub open spec fn apply_transition(
        pre: MinesweeperGames,
        post: MinesweeperGames,
        id: u64,
        index: usize,
        acting_player: u64,
        now: u64,
        resp: MinesweeperResponse,
    ) -> bool {
        if !pre.games@.contains_key(id) {
            match resp {
                MinesweeperResponse::Expired { grid } => post.games@ == pre.games@ && grid@.len()
                    == 0,
                _ => false,
            }
        } else {
            let g0 = pre.games@[id];
            match resp {
                MinesweeperResponse::Expired { .. } => false,
                MinesweeperResponse::NotYourGame => acting_player != g0.player && post.games@
                    == pre.games@,
                MinesweeperResponse::Updated { grid, revealed, anomaly } => {
                    if anomaly {
                        &&& MinesweeperGame::reveal_transition(
                            g0,
                            g0,
                            index,
                            acting_player,
                            now,
                            Ok(RevealOutcome::AlreadyRevealed),
                        )
                        &&& post.games@ == pre.games@
                        &&& revealed@ == seq![index]
                        &&& is_ms_render(grid@, g0, revealed@, false)
                    } else {
                        &&& post.games@.contains_key(id)
                        &&& post.games@ == pre.games@.insert(id, post.games@[id])
                        &&& MinesweeperGame::reveal_transition(
                            g0,
                            post.games@[id],
                            index,
                            acting_player,
                            now,
                            Ok(RevealOutcome::Continue { revealed }),
                        )
                        &&& is_ms_render(grid@, post.games@[id], revealed@, false)
                    }
                },
                MinesweeperResponse::Finished {
                    grid,
                    revealed,
                    won,
                    bombs,
                    cleared,
                    total,
                    elapsed,
                } => {
                    &&& post.games@ == pre.games@.remove(id)
                    &&& if won {
                        &&& cleared == total == 25 - bombs
                        &&& exists|g1: MinesweeperGame|
                            {
                                &&& #[trigger] MinesweeperGame::reveal_transition(
                                    g0,
                                    g1,
                                    index,
                                    acting_player,
                                    now,
                                    Ok(RevealOutcome::Won { revealed, bombs, elapsed }),
                                )
                                &&& is_ms_render(grid@, g1, revealed@, true)
                            }
                    } else {
                        &&& MinesweeperGame::reveal_transition(
                            g0,
                            g0,
                            index,
                            acting_player,
                            now,
                            Ok(
                                RevealOutcome::Lost {
                                    exploded: index,
                                    bombs,
                                    cleared,
                                    total,
                                    elapsed,
                                },
                            ),
                        )
                        &&& revealed@ == seq![index]
                        &&& is_ms_render(grid@, g0, revealed@, true)
                    }
                },
            }
        }
    }

    /// Apply one button action: look up the session by id (replying with
    /// the expired fallback when it is gone), run the reveal, drop the
    /// session when the game ended, and render the reply.
    pub fn apply_action(&mut self, id: u64, index: usize, acting_player: u64, now: u64) -> (resp:
        MinesweeperResponse)
        requires
            old(self).wf(),
            index < 25,
        ensures
            final(self).wf(),
            Self::apply_transition(
                *old(self),
                *final(self),
                id,
                index,
                acting_player,
                now,
                resp,
            ),
    {
        let got = self.games.remove(&id);
        match got {
            None => {
                proof {
                    assert(old(self).games@.remove(id) =~= old(self).games@);
                }
                MinesweeperResponse::Expired { grid: Vec::new() }
            },
            Some(mut game) => {
                let ghost g0 = game;
                let res = game.reveal_cell(index, acting_player, now);
                match res {
                    Err(_e) => {
                        self.games.insert(id, game);
                        proof {
                            assert(old(self).games@.remove(id).insert(id, g0) =~= old(
                                self,
                            ).games@);
                        }
                        MinesweeperResponse::NotYourGame
                    },
                    Ok(RevealOutcome::AlreadyRevealed) => {
                        let mut revealed: Vec<usize> = Vec::new();
                        revealed.push(index);
                        let grid = render_board(&game, &revealed, false);
                        self.games.insert(id, game);
                        proof {
                            assert(old(self).games@.remove(id).insert(id, g0) =~= old(
                                self,
                            ).games@);
                            assert(revealed@ =~= seq![index]);
                        }
                        MinesweeperResponse::Updated { grid, revealed, anomaly: true }
                    },
                    Ok(RevealOutcome::Continue { revealed }) => {
                        let grid = render_board(&game, &revealed, false);
                        self.games.insert(id, game);
                        proof {
                            assert(final(self).games@ =~= old(self).games@.insert(id, game));
                        }
                        MinesweeperResponse::Updated { grid, revealed, anomaly: false }
                    },
                    Ok(RevealOutcome::Won { revealed, bombs, elapsed }) => {
                        let grid = render_board(&game, &revealed, true);
                        let cleared: usize = 25 - bombs;
                        MinesweeperResponse::Finished {
                            grid,
                            revealed,
                            won: true,
                            bombs,
                            cleared,
                            total: cleared,
                            elapsed,
                        }
                    },
                    Ok(RevealOutcome::Lost { exploded: _, bombs, cleared, total, elapsed }) => {
                        let mut revealed: Vec<usize> = Vec::new();
                        revealed.push(index);
                        let grid = render_board(&game, &revealed, true);
                        proof {
                            assert(revealed@ =~= seq![index]);
                        }
                        MinesweeperResponse::Finished {
                            grid,
                            revealed,
                            won: false,
                            bombs,
                            cleared,
                            total,
                            elapsed,
                        }
                    },
                }
            },
        }
    }
}

/// The reply to one tic-tac-toe action: the session was gone, the action
/// was rejected, the opponent joined, a move was made, or the game just
/// ended (with the winner, or no winner for a tie).
pub enum TictactoeResponse {
    Expired { grid: Vec<Vec<CellView>> },
    Rejected { error: GameError },
    Joined { grid: Vec<Vec<CellView>>, next_player: u64 },
    Moved { grid: Vec<Vec<CellView>>, next_player: u64 },
    Finished { grid: Vec<Vec<CellView>>, highlight: Vec<usize>, winner: Option<u64> },
}

/// The registry of live tic-tac-toe sessions, keyed like
/// `MinesweeperGames` and guarded the same way by the caller.
pub struct TictactoeGames {
    pub games: HashMap<u64, TictactoeGame>,
}

impl TictactoeGames {
    /// Every stored session is internally consistent.
    pub open spec fn wf(self) -> bool {
        forall|k: u64| self.games@.contains_key(k) ==> (#[trigger] self.games@[k]).wf()
    }

    pub fn new() -> (r: TictactoeGames)
        ensures
            r.wf(),
            r.games@ == Map::<u64, TictactoeGame>::empty(),
    {
        TictactoeGames { games: HashMap::new() }
    }

    /// Insert `game` at `id`, overwriting any session previously stored
    /// there (command re-invocation semantics).
    pub fn create(&mut self, id: u64, game: TictactoeGame)
        requires
            old(self).wf(),
            game.wf(),
        ensures
            final(self).wf(),
            final(self).games@ == old(self).games@.insert(id, game),
    {
        self.games.insert(id, game);
    }

    /// Delete the session at `id`, if any.
    pub fn remove(&mut self, id: u64)
        requires
            old(self).wf(),
        ensures
            final(self).wf(),
            final(self).games@ == old(self).games@.remove(id),
    {
        self.games.remove(&id);
    }

    /// Start a new game for `owner` on a `size x size` board and store it
    /// at `id`. No grid is shown until an opponent joins.
    pub fn start(&mut self, id: u64, owner: u64, size: usize)
        requires
            old(self).wf(),
            2 <= size,
            size * size <= usize::MAX,
        ensures
            final(self).wf(),
            final(self).games@.contains_key(id),
            final(self).games@ == old(self).games@.insert(id, final(self).games@[id]),
            ({
                let g = final(self).games@[id];
                &&& g.player1 == owner
                &&& g.player2 is None
                &&& g.size == size
                &&& g.turn == crate::tictactoe::TictactoeCell::X
                &&& g.start_time is None
                &&& g.board@.len() == size * size
                &&& forall|j: int| 0 <= j < g.board@.len() ==> (#[trigger] g.board@[j]) is None
            }),
    {
        let game = TictactoeGame::new(owner, size);
        self.create(id, game);
    }

    /// What `join_action` guarantees.
    pub open spec fn join_apply_transition(
        pre: TictactoeGames,
        post: TictactoeGames,
        id: u64,
        candidate: u64,
        now: u64,
        resp: TictactoeResponse,
    ) -> bool {
        if !pre.games@.contains_key(id) {
            match resp {
                TictactoeResponse::Expired { grid } => post.games@ == pre.games@ && grid@.len()
                    == 0,
                _ => false,
            }
        } else {
            let g0 = pre.games@[id];
            match resp {
                TictactoeResponse::Rejected { error } => {
                    &&& post.games@ == pre.games@
                    &&& TictactoeGame::join_transition(g0, g0, candidate, now, Err(error))
                },
                TictactoeResponse::Joined { grid, next_player } => {
                    &&& post.games@.contains_key(id)
                    &&& post.games@ == pre.games@.insert(id, post.games@[id])
                    &&& TictactoeGame::join_transition(
                        g0,
                        post.games@[id],
                        candidate,
                        now,
                        Ok(()),
                    )
                    &&& next_player == g0.player1
                    &&& is_ttt_render(
                        grid@,
                        post.games@[id].board@,
                        g0.size as int,
                        Seq::<usize>::empty(),
                    )
                },
                _ => false,
            }
        }
    }

    /// Apply one join attempt against the session at `id`.
    pub fn join_action(&mut self, id: u64, candidate: u64, now: u64) -> (resp: TictactoeResponse)
        requires
            old(self).wf(),
        ensures
            final(self).wf(),
            Self::join_apply_transition(*old(self), *final(self), id, candidate, now, resp),
    {
        let got = self.games.remove(&id);
        match got {
            None => {
                proof {
                    assert(old(self).games@.remove(id) =~= old(self).games@);
                }
                TictactoeResponse::Expired { grid: Vec::new() }
            },
            Some(mut game) => {
                let ghost g0 = game;
                let res = game.join(candidate, now);
                match res {
                    Err(error) => {
                        self.games.insert(id, game);
                        proof {
                            assert(old(self).games@.remove(id).insert(id, g0) =~= old(
                                self,
                            ).games@);
                        }
                        TictactoeResponse::Rejected { error }
                    },
                    Ok(()) => {
                        let no_highlight: Vec<usize> = Vec::new();
                        let grid = game.render_board(&no_highlight);
                        let next_player = game.player1;
                        self.games.insert(id, game);
                        proof {
                            assert(final(self).games@ =~= old(self).games@.insert(id, game));
                        }
                        TictactoeResponse::Joined { grid, next_player }
                    },
                }
            },
        }
    }

    /// What `play_action` guarantees.
    pub open spec fn play_apply_transition(
        pre: TictactoeGames,
        post: TictactoeGames,
        id: u64,
        index: usize,
        acting_player: u64,
        resp: TictactoeResponse,
    ) -> bool {
        if !pre.games@.contains_key(id) {
            match resp {
                TictactoeResponse::Expired { grid } => post.games@ == pre.games@ && grid@.len()
                    == 0,
                _ => false,
            }
        } else {
            let g0 = pre.games@[id];
            if g0.player2 is None || index as int >= g0.size * g0.size {
                // A grid action before anyone joined, or an index no cell
                // of this board has: a routing bug, tolerated as a no-op.
                match resp {
                    TictactoeResponse::Rejected { error } => error == GameError::InvariantViolation
                        && post.games@ == pre.games@,
                    _ => false,
                }
            } else {
                match resp {
                    TictactoeResponse::Rejected { error } => {
                        &&& post.games@ == pre.games@
                        &&& TictactoeGame::play_transition(g0, g0, index, acting_player, Err(error))
                    },
                    TictactoeResponse::Moved { grid, next_player } => {
                        &&& post.games@.contains_key(id)
                        &&& post.games@ == pre.games@.insert(id, post.games@[id])
                        &&& TictactoeGame::play_transition(
                            g0,
                            post.games@[id],
                            index,
                            acting_player,
                            Ok(PlayOutcome::Continue { cell: index, next_player }),
                        )
                        &&& is_ttt_render(
                            grid@,
                            post.games@[id].board@,
                            g0.size as int,
                            seq![index],
                        )
                    },
                    TictactoeResponse::Finished { grid, highlight, winner } => {
                        let nb = g0.board@.update(index as int, Some(g0.turn));
                        &&& post.games@ == pre.games@.remove(id)
                        &&& (acting_player == g0.player1 || g0.player2 == Some(acting_player))
                        &&& Some(acting_player) == g0.spec_current_player()
                        &&& g0.board@[index as int] is None
                        &&& match winner {
                            Some(w) => {
                                &&& w == acting_player
                                &&& match check_win_spec(nb, index as int, g0.size as int) {
                                    Some(line) => as_int_seq(highlight@) == line,
                                    None => false,
                                }
                            },
                            None => {
                                &&& check_win_spec(nb, index as int, g0.size as int) is None
                                &&& full_board(nb)
                                &&& highlight@ == seq![index]
                            },
                        }
                        &&& is_ttt_render(grid@, nb, g0.size as int, highlight@)
                    },
                    _ => false,
                }
            }
        }
    }

    /// Apply one move against the session at `id`. A finished game (won or
    /// tied) is removed from the registry.
    pub fn play_action(&mut self, id: u64, index: usize, acting_player: u64) -> (resp:
        TictactoeResponse)
        requires
            old(self).wf(),
        ensures
            final(self).wf(),
            Self::play_apply_transition(*old(self), *final(self), id, index, acting_player, resp),
    {
        let got = self.games.remove(&id);
        match got {
            None => {
                proof {
                    assert(old(self).games@.remove(id) =~= old(self).games@);
                }
                TictactoeResponse::Expired { grid: Vec::new() }
            },
            Some(mut game) => {
                let ghost g0 = game;
                if game.player2.is_none() || index >= game.board.len() {
                    proof {
                        assert(g0.board@.len() == g0.size * g0.size);
                    }
                    self.games.insert(id, game);
                    proof {
                        assert(old(self).games@.remove(id).insert(id, g0) =~= old(self).games@);
                    }
                    return TictactoeResponse::Rejected { error: GameError::InvariantViolation };
                }
                let res = game.play(index, acting_player);
                match res {
                    Err(error) => {
                        self.games.insert(id, game);
                        proof {
                            assert(old(self).games@.remove(id).insert(id, g0) =~= old(
                                self,
                            ).games@);
                        }
                        TictactoeResponse::Rejected { error }
                    },
                    Ok(PlayOutcome::Continue { cell, next_player }) => {
                        let mut highlight: Vec<usize> = Vec::new();
                        highlight.push(cell);
                        let grid = game.render_board(&highlight);
                        self.games.insert(id, game);
                        proof {
                            assert(highlight@ =~= seq![index]);
                            assert(final(self).games@ =~= old(self).games@.insert(id, game));
                        }
                        TictactoeResponse::Moved { grid, next_player }
                    },
                    Ok(PlayOutcome::Won { line, winner }) => {
                        let grid = game.render_board(&line);
                        TictactoeResponse::Finished { grid, highlight: line, winner: Some(winner) }
                    },
                    Ok(PlayOutcome::Tied { cell }) => {
                        let mut highlight: Vec<usize> = Vec::new();
                        highlight.push(cell);
                        let grid = game.render_board(&highlight);
                        proof {
                            assert(highlight@ =~= seq![index]);
                        }
                        TictactoeResponse::Finished { grid, highlight, winner: None }
                    },
                }
            },
        }
    }
}

} // verus!
