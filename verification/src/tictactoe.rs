use vstd::prelude::*;

use crate::GameError;
use crate::render::{contains_index, CellLabel, CellView, Emphasis};

verus! {

/// A tic-tac-toe mark. The board stores `Option<TictactoeCell>`: a filled
/// cell never reverts to empty.
#[derive(Clone, Copy, PartialEq, Eq, Structural, Debug)]
pub enum TictactoeCell {
    X,
    O,
}

/// The mark that moves after `t`.
pub open spec fn flip(t: TictactoeCell) -> TictactoeCell {
    match t {
        TictactoeCell::X => TictactoeCell::O,
        TictactoeCell::O => TictactoeCell::X,
    }
}

/// A sequence of cell indices as mathematical integers.
pub open spec fn as_int_seq(s: Seq<usize>) -> Seq<int> {
    Seq::new(s.len(), |k: int| s[k] as int)
}

/// The cell indices of row `y` on an `size x size` board.
pub open spec fn row_line(y: int, size: int) -> Seq<int> {
    Seq::new(size as nat, |k: int| y * size + k)
}

/// The cell indices of column `x`.
pub open spec fn col_line(x: int, size: int) -> Seq<int> {
    Seq::new(size as nat, |k: int| k * size + x)
}

/// The main diagonal (row == column).
pub open spec fn diag_line(size: int) -> Seq<int> {
    Seq::new(size as nat, |k: int| k * size + k)
}

/// The anti-diagonal (column == size - 1 - row).
pub open spec fn anti_diag_line(size: int) -> Seq<int> {
    Seq::new(size as nat, |k: int| k * size + (size - 1 - k))
}

/// Every cell along `line` holds the same value as its first cell.
pub open spec fn line_won(board: Seq<Option<TictactoeCell>>, line: Seq<int>) -> bool {
    forall|k: int| 0 <= k < line.len() ==> board[#[trigger] line[k]] == board[line[0]]
}

/// The candidate lines through `index`, tried in the fixed order row,
/// column, main diagonal, anti-diagonal; the first uniform one wins. This
/// ordering only decides which line is reported, not whether a win
/// occurred.
pub open spec fn check_win_spec(
    board: Seq<Option<TictactoeCell>>,
    index: int,
    size: int,
) -> Option<Seq<int>> {
    let y = index / size;
    let x = index % size;
    if line_won(board, row_line(y, size)) {
        Some(row_line(y, size))
    } else if line_won(board, col_line(x, size)) {
        Some(col_line(x, size))
    } else if y == x && line_won(board, diag_line(size)) {
        Some(diag_line(size))
    } else if x == size - 1 - y && line_won(board, anti_diag_line(size)) {
        Some(anti_diag_line(size))
    } else {
        None
    }
}

/// Every cell is filled.
pub open spec fn full_board(board: Seq<Option<TictactoeCell>>) -> bool {
    forall|j: int| 0 <= j < board.len() ==> (#[trigger] board[j]) is Some
}

/// Whether two cells hold the same optional mark.
fn cell_eq(a: Option<TictactoeCell>, b: Option<TictactoeCell>) -> (r: bool)
    ensures
        r == (a == b),
{
    match (a, b) {
        (Option::None, Option::None) => true,
        (Option::Some(TictactoeCell::X), Option::Some(TictactoeCell::X)) => true,
        (Option::Some(TictactoeCell::O), Option::Some(TictactoeCell::O)) => true,
        _ => false,
    }
}

/// Whether the cells at the indices of `line` all hold the same value.
fn line_all_equal(board: &Vec<Option<TictactoeCell>>, line: &Vec<usize>) -> (r: bool)
    requires
        line@.len() >= 1,
        forall|k: int| 0 <= k < line@.len() ==> #[trigger] line@[k] < board@.len(),
    ensures
        r == line_won(board@, as_int_seq(line@)),
{
    let first = board[line[0]];
    let mut k: usize = 1;
    while k < line.len()
        invariant
            line@.len() >= 1,
            forall|m: int| 0 <= m < line@.len() ==> #[trigger] line@[m] < board@.len(),
            first == board@[line@[0] as int],
            1 <= k <= line@.len(),
            forall|m: int| 0 <= m < k ==> board@[#[trigger] line@[m] as int] == first,
        decreases line@.len() - k,
    {
        if !cell_eq(board[line[k]], first) {
            proof {
                assert(board@[as_int_seq(line@)[k as int]] != board@[as_int_seq(line@)[0]]);
            }
            return false;
        }
        k += 1;
    }
    true
}

fn row_indices(y: usize, size: usize) -> (r: Vec<usize>)
    requires
        1 <= size,
        y < size,
        size * size <= usize::MAX,
    ensures
        r@.len() == size,
        forall|k: int| 0 <= k < size ==> #[trigger] r@[k] == y * size + k,
{
    let mut r: Vec<usize> = Vec::new();
    let mut k: usize = 0;
    proof {
        assert((y + 1) * size <= size * size) by (nonlinear_arith)
            requires
                y + 1 <= size,
                size >= 1,
        ;
    }
    while k < size
        invariant
            1 <= size,
            y < size,
            (y + 1) * size <= size * size <= usize::MAX,
            k <= size,
            r@.len() == k,
            forall|m: int| 0 <= m < k ==> #[trigger] r@[m] == y * size + m,
        decreases size - k,
    {
        proof {
            assert(y * size + k < (y + 1) * size) by (nonlinear_arith)
                requires
                    k < size,
            ;
        }
        r.push(y * size + k);
        k += 1;
    }
    r
}

fn col_indices(x: usize, size: usize) -> (r: Vec<usize>)
    requires
        1 <= size,
        x < size,
        size * size <= usize::MAX,
    ensures
        r@.len() == size,
        forall|k: int| 0 <= k < size ==> #[trigger] r@[k] == k * size + x,
{
    let mut r: Vec<usize> = Vec::new();
    let mut k: usize = 0;
    while k < size
        invariant
            1 <= size,
            x < size,
            size * size <= usize::MAX,
            k <= size,
            r@.len() == k,
            forall|m: int| 0 <= m < k ==> #[trigger] r@[m] == m * size + x,
        decreases size - k,
    {
        proof {
            assert(k * size + x < size * size) by (nonlinear_arith)
                requires
                    k < size,
                    x < size,
                    size >= 1,
            ;
        }
        r.push(k * size + x);
        k += 1;
    }
    r
}

fn diag_indices(size: usize) -> (r: Vec<usize>)
    requires
        1 <= size,
        size * size <= usize::MAX,
    ensures
        r@.len() == size,
        forall|k: int| 0 <= k < size ==> #[trigger] r@[k] == k * size + k,
{
    let mut r: Vec<usize> = Vec::new();
    let mut k: usize = 0;
    while k < size
        invariant
            1 <= size,
            size * size <= usize::MAX,
            k <= size,
            r@.len() == k,
            forall|m: int| 0 <= m < k ==> #[trigger] r@[m] == m * size + m,
        decreases size - k,
    {
        proof {
            assert(k * size + k < size * size) by (nonlinear_arith)
                requires
                    k < size,
                    size >= 1,
            ;
        }
        r.push(k * size + k);
        k += 1;
    }
    r
}

fn anti_diag_indices(size: usize) -> (r: Vec<usize>)
    requires
        1 <= size,
        size * size <= usize::MAX,
    ensures
        r@.len() == size,
        forall|k: int| 0 <= k < size ==> #[trigger] r@[k] == k * size + (size - 1 - k),
{
    let mut r: Vec<usize> = Vec::new();
    let mut k: usize = 0;
    while k < size
        invariant
            1 <= size,
            size * size <= usize::MAX,
            k <= size,
            r@.len() == k,
            forall|m: int| 0 <= m < k ==> #[trigger] r@[m] == m * size + (size - 1 - m),
        decreases size - k,
    {
        proof {
            assert(k * size + (size - 1 - k) < size * size) by (nonlinear_arith)
                requires
                    k < size,
                    size >= 1,
            ;
        }
        r.push(k * size + (size - 1 - k));
        k += 1;
    }
    r
}

/// What one successful move did: the game goes on with the other player's
/// turn, was won by the acting player along `line`, or tied the board.
#[derive(PartialEq, Eq, Debug)]
pub enum PlayOutcome {
    Continue { cell: usize, next_player: u64 },
    Won { line: Vec<usize>, winner: u64 },
    Tied { cell: usize },
}

/// One tic-tac-toe game: the starting player (who plays `X`), the opponent
/// (set once on join), the board side length, the flat board, whose turn it
/// is, and the start time (set on join).
pub struct TictactoeGame {
    pub player1: u64,
    pub player2: Option<u64>,
    pub size: usize,
    pub board: Vec<Option<TictactoeCell>>,
    pub turn: TictactoeCell,
    pub start_time: Option<u64>,
}

impl TictactoeGame {
    /// The session invariant: a side of at least 2 whose square fits the
    /// machine, a flat board of `size * size` cells, an opponent distinct
    /// from the starter, and the clock running exactly once joined.
    pub open spec fn wf(self) -> bool {
        &&& self.size >= 2
        &&& self.size * self.size <= usize::MAX
        &&& self.board@.len() == self.size * self.size
        &&& match self.player2 {
            Some(p2) => p2 != self.player1,
            None => true,
        }
        &&& (self.player2 is Some <==> self.start_time is Some)
    }

    /// A fresh session awaiting an opponent: an empty board, `X` to move.
    pub fn new(player: u64, size: usize) -> (g: TictactoeGame)
        requires
            2 <= size,
            size * size <= usize::MAX,
        ensures
            g.wf(),
            g.player1 == player,
            g.player2 is None,
            g.size == size,
            g.turn == TictactoeCell::X,
            g.start_time is None,
            g.board@.len() == size * size,
            forall|j: int| 0 <= j < g.board@.len() ==> (#[trigger] g.board@[j]) is None,
    {
        let n = size * size;
        let mut board: Vec<Option<TictactoeCell>> = Vec::new();
        let mut i: usize = 0;
        while i < n
            invariant
                i <= n,
                board@.len() == i,
                forall|j: int| 0 <= j < i ==> (#[trigger] board@[j]) is None,
            decreases n - i,
        {
            board.push(None);
            i += 1;
        }
        TictactoeGame {
            player1: player,
            player2: None,
            size,
            board,
            turn: TictactoeCell::X,
            start_time: None,
        }
    }

    /// The join handshake, relating the session before and after to the
    /// result: joining one's own game and joining twice fail and change
    /// nothing; otherwise the opponent is recorded once and the clock
    /// starts.
    pub open spec fn join_transition(
        pre: TictactoeGame,
        post: TictactoeGame,
        candidate: u64,
        now: u64,
        r: Result<(), GameError>,
    ) -> bool {
        if candidate == pre.player1 {
            r == Err::<(), GameError>(GameError::SelfJoin) && post == pre
        } else if pre.player2 is Some {
            r == Err::<(), GameError>(GameError::AlreadyJoined) && post == pre
        } else {
            r == Ok::<(), GameError>(()) && post == TictactoeGame {
                player2: Some(candidate),
                start_time: Some(now),
                ..pre
            }
        }
    }

    /// Let `candidate` join as the second player.
    pub fn join(&mut self, candidate: u64, now: u64) -> (r: Result<(), GameError>)
        requires
            old(self).wf(),
        ensures
            final(self).wf(),
            Self::join_transition(*old(self), *final(self), candidate, now, r),
    {
        if candidate == self.player1 {
            return Err(GameError::SelfJoin);
        }
        if self.player2.is_some() {
            return Err(GameError::AlreadyJoined);
        }
        self.player2 = Some(candidate);
        self.start_time = Some(now);
        Ok(())
    }

    /// Whose move it is: `X` is the starting player, `O` the opponent (if
    /// one has joined).
    pub open spec fn spec_current_player(self) -> Option<u64> {
        match self.turn {
            TictactoeCell::X => Some(self.player1),
            TictactoeCell::O => self.player2,
        }
    }

    pub fn current_player(&self) -> (r: Option<u64>)
        ensures
            r == self.spec_current_player(),
    {
        match self.turn {
            TictactoeCell::X => Some(self.player1),
            TictactoeCell::O => self.player2,
        }
    }

    /// Check whether the move just made at `cell_index` completed a line:
    /// only the row, the column, and the diagonal(s) through that cell need
    /// re-deriving. Returns the full winning line, in order.
    pub fn check_win(&self, cell_index: usize) -> (r: Option<Vec<usize>>)
        requires
            self.wf(),
            cell_index < self.size * self.size,
        ensures
            match r {
                Some(v) => check_win_spec(self.board@, cell_index as int, self.size as int)
                    == Some(as_int_seq(v@)),
                None => check_win_spec(self.board@, cell_index as int, self.size as int) is None,
            },
    {
        let size = self.size;
        let y = cell_index / size;
        let x = cell_index % size;
        proof {
            assert(y == cell_index as int / size as int);
            assert(x == cell_index as int % size as int);
            assert(y < size && x < size) by (nonlinear_arith)
                requires
                    size >= 1,
                    cell_index < size * size,
                    y == cell_index as int / size as int,
                    x == cell_index as int % size as int,
            ;
        }
        let row = row_indices(y, size);
        proof {
            assert(as_int_seq(row@) =~= row_line(y as int, size as int));
            assert forall|k: int| 0 <= k < row@.len() implies #[trigger] row@[k]
                < self.board@.len() by {
                assert(y * size + k < size * size) by (nonlinear_arith)
                    requires
                        y < size,
                        0 <= k < size,
                        size >= 1,
                ;
            }
        }
        if line_all_equal(&self.board, &row) {
            return Some(row);
        }
        let col = col_indices(x, size);
        proof {
            assert(as_int_seq(col@) =~= col_line(x as int, size as int));
            assert forall|k: int| 0 <= k < col@.len() implies #[trigger] col@[k]
                < self.board@.len() by {
                assert(k * size + x < size * size) by (nonlinear_arith)
                    requires
                        x < size,
                        0 <= k < size,
                        size >= 1,
                ;
            }
        }
        if line_all_equal(&self.board, &col) {
            return Some(col);
        }
        if y == x {
            let diag = diag_indices(size);
            proof {
                assert(as_int_seq(diag@) =~= diag_line(size as int));
                assert forall|k: int| 0 <= k < diag@.len() implies #[trigger] diag@[k]
                    < self.board@.len() by {
                    assert(k * size + k < size * size) by (nonlinear_arith)
                        requires
                            0 <= k < size,
                            size >= 1,
                    ;
                }
            }
            if line_all_equal(&self.board, &diag) {
                return Some(diag);
            }
        }
        if x == size - 1 - y {
            let anti = anti_diag_indices(size);
            proof {
                assert(as_int_seq(anti@) =~= anti_diag_line(size as int));
                assert forall|k: int| 0 <= k < anti@.len() implies #[trigger] anti@[k]
                    < self.board@.len() by {
                    assert(k * size + (size - 1 - k) < size * size) by (nonlinear_arith)
                        requires
                            0 <= k < size,
                            size >= 1,
                    ;
                }
            }
            if line_all_equal(&self.board, &anti) {
                return Some(anti);
            }
        }
        None
    }

    /// The move state machine, relating the session before and after one
    /// move to its result. The turn advances exactly on a successful move;
    /// every failure leaves the session untouched.
    pub open spec fn play_transition(
        pre: TictactoeGame,
        post: TictactoeGame,
        index: usize,
        acting_player: u64,
        r: Result<PlayOutcome, GameError>,
    ) -> bool {
        let participant = acting_player == pre.player1 || pre.player2 == Some(acting_player);
        if !participant {
            r == Err::<PlayOutcome, GameError>(GameError::NotYourGame) && post == pre
        } else if Some(acting_player) != pre.spec_current_player() {
            r == Err::<PlayOutcome, GameError>(GameError::NotYourTurn) && post == pre
        } else if pre.board@[index as int] is Some {
            // Anomaly tolerated without a state change: the interface
            // should have disabled this cell.
            r == Err::<PlayOutcome, GameError>(GameError::InvariantViolation) && post == pre
        } else {
            let nb = pre.board@.update(index as int, Some(pre.turn));
            &&& post.player1 == pre.player1
            &&& post.player2 == pre.player2
            &&& post.size == pre.size
            &&& post.start_time == pre.start_time
            &&& post.board@ == nb
            &&& post.turn == flip(pre.turn)
            &&& match check_win_spec(nb, index as int, pre.size as int) {
                Some(line) => match r {
                    Ok(PlayOutcome::Won { line: l, winner }) => as_int_seq(l@) == line && winner
                        == acting_player,
                    _ => false,
                },
                None => if full_board(nb) {
                    r == Ok::<PlayOutcome, GameError>(PlayOutcome::Tied { cell: index })
                } else {
                    match r {
                        Ok(PlayOutcome::Continue { cell, next_player }) => cell == index && Some(
                            next_player,
                        ) == post.spec_current_player(),
                        _ => false,
                    }
                },
            }
        }
    }

    /// One move by `acting_player` at `index`.
    ///
    /// Fails with `NotYourGame` for a non-participant, `NotYourTurn` for
    /// the participant whose turn it is not, and `InvariantViolation` on an
    /// occupied cell; no failure changes the board or the turn. A
    /// successful move places the current mark, reports a win along the
    /// first completed line through `index` or a tie on a full board, and
    /// otherwise passes the turn to the other player.
    pub fn play(&mut self, index: usize, acting_player: u64) -> (r: Result<
        PlayOutcome,
        GameError,
    >)
        requires
            old(self).wf(),
            old(self).player2 is Some,
            index < old(self).size * old(self).size,
        ensures
            final(self).wf(),
            Self::play_transition(*old(self), *final(self), index, acting_player, r),
    {
        let p2 = self.player2.unwrap();
        if !(acting_player == self.player1 || acting_player == p2) {
            return Err(GameError::NotYourGame);
        }
        let cur = self.current_player();
        if acting_player != cur.unwrap() {
            return Err(GameError::NotYourTurn);
        }
        if self.board[index].is_some() {
            return Err(GameError::InvariantViolation);
        }
        let mark = self.turn;
        self.board.set(index, Some(mark));
        self.turn = match mark {
            TictactoeCell::X => TictactoeCell::O,
            TictactoeCell::O => TictactoeCell::X,
        };
        let win = self.check_win(index);
        match win {
            Some(line) => Ok(PlayOutcome::Won { line, winner: acting_player }),
            None => {
                if board_full(&self.board) {
                    Ok(PlayOutcome::Tied { cell: index })
                } else {
                    let next_player = self.current_player().unwrap();
                    Ok(PlayOutcome::Continue { cell: index, next_player })
                }
            },
        }
    }
}

/// What one tic-tac-toe cell shows: a filled cell shows its mark and is
/// permanently disabled; an empty cell is playable unless the game just
/// ended (more than one highlighted cell means a finished game, which
/// disables the rest of the board). The cell(s) just played are
/// highlighted; a full winning line is shown as success.
pub open spec fn ttt_cell_view(
    board: Seq<Option<TictactoeCell>>,
    size: int,
    highlight: Seq<usize>,
    y: int,
    x: int,
) -> CellView {
    let index = y * size + x;
    let game_over = highlight.len() > 1;
    CellView {
        index: index as usize,
        label: match board[index] {
            Some(m) => CellLabel::Mark(m),
            None => CellLabel::Blank,
        },
        emphasis: if highlight.contains(index as usize) {
            if game_over {
                Emphasis::Success
            } else {
                Emphasis::Highlighted
            }
        } else {
            Emphasis::Neutral
        },
        disabled: (board[index] is Some) || game_over,
    }
}

/// `grid` is the rendered board: `size` rows of `size` cells, each exactly
/// as `ttt_cell_view` prescribes.
pub open spec fn is_ttt_render(
    grid: Seq<Vec<CellView>>,
    board: Seq<Option<TictactoeCell>>,
    size: int,
    highlight: Seq<usize>,
) -> bool {
    &&& grid.len() == size
    &&& forall|y: int| 0 <= y < size ==> (#[trigger] grid[y])@.len() == size
    &&& forall|y: int, x: int|
        0 <= y < size && 0 <= x < size ==> #[trigger] grid[y]@[x] == ttt_cell_view(
            board,
            size,
            highlight,
            y,
            x,
        )
}

impl TictactoeGame {
    /// Render the board as an ordered grid of cell descriptors,
    /// highlighting `highlight_cells` (the move just made, or the whole
    /// winning line).
    pub fn render_board(&self, highlight_cells: &Vec<usize>) -> (grid: Vec<Vec<CellView>>)
        requires
            self.wf(),
        ensures
            is_ttt_render(grid@, self.board@, self.size as int, highlight_cells@),
    {
        let size = self.size;
        let game_over = highlight_cells.len() > 1;
        let mut grid: Vec<Vec<CellView>> = Vec::new();
        let mut y: usize = 0;
        while y < size
            invariant
                self.wf(),
                size == self.size,
                game_over == (highlight_cells@.len() > 1),
                y <= size,
                grid@.len() == y,
                forall|m: int| 0 <= m < y ==> (#[trigger] grid@[m])@.len() == size,
                forall|m: int, x: int|
                    0 <= m < y && 0 <= x < size ==> #[trigger] grid@[m]@[x] == ttt_cell_view(
                        self.board@,
                        size as int,
                        highlight_cells@,
                        m,
                        x,
                    ),
            decreases size - y,
        {
            let mut rowv: Vec<CellView> = Vec::new();
            let mut x: usize = 0;
            while x < size
                invariant
                    self.wf(),
                    size == self.size,
                    game_over == (highlight_cells@.len() > 1),
                    y < size,
                    x <= size,
                    rowv@.len() == x,
                    forall|m: int|
                        0 <= m < x ==> #[trigger] rowv@[m] == ttt_cell_view(
                            self.board@,
                            size as int,
                            highlight_cells@,
                            y as int,
                            m,
                        ),
                decreases size - x,
            {
                proof {
                    assert(y * size + x < size * size) by (nonlinear_arith)
                        requires
                            y < size,
                            x < size,
                            size >= 1,
                    ;
                }
                let index = y * size + x;
                let cell = self.board[index];
                let label = match cell {
                    Some(m) => CellLabel::Mark(m),
                    None => CellLabel::Blank,
                };
                let hl = contains_index(highlight_cells, index);
                let emphasis = if hl {
                    if game_over {
                        Emphasis::Success
                    } else {
                        Emphasis::Highlighted
                    }
                } else {
                    Emphasis::Neutral
                };
                let disabled = cell.is_some() || game_over;
                rowv.push(CellView { index, label, emphasis, disabled });
                x += 1;
            }
            grid.push(rowv);
            y += 1;
        }
        grid
    }
}

/// A board with no uniform line anywhere makes the per-move win check come
/// up empty, whatever cell the move was at.
pub proof fn lemma_no_line_no_win(board: Seq<Option<TictactoeCell>>, index: int, size: int)
    requires
        size >= 2,
        0 <= index < size * size,
        forall|y: int| 0 <= y < size ==> !line_won(board, #[trigger] row_line(y, size)),
        forall|x: int| 0 <= x < size ==> !line_won(board, #[trigger] col_line(x, size)),
        !line_won(board, diag_line(size)),
        !line_won(board, anti_diag_line(size)),
    ensures
        check_win_spec(board, index, size) is None,
{
    assert(0 <= index / size < size && 0 <= index % size < size) by (nonlinear_arith)
        requires
            size >= 2,
            0 <= index < size * size,
    ;
}

/// For any board side of at least 2: a successful move that fills the
/// board while no line anywhere is uniform ties the game, never wins it.
pub proof fn lemma_full_board_no_line_ties(
    pre: TictactoeGame,
    post: TictactoeGame,
    index: usize,
    acting_player: u64,
    r: Result<PlayOutcome, GameError>,
)
    requires
        pre.wf(),
        index < pre.size * pre.size,
        TictactoeGame::play_transition(pre, post, index, acting_player, r),
        r is Ok,
        full_board(post.board@),
        forall|y: int|
            0 <= y < pre.size ==> !line_won(post.board@, #[trigger] row_line(y, pre.size as int)),
        forall|x: int|
            0 <= x < pre.size ==> !line_won(post.board@, #[trigger] col_line(x, pre.size as int)),
        !line_won(post.board@, diag_line(pre.size as int)),
        !line_won(post.board@, anti_diag_line(pre.size as int)),
    ensures
        r == Ok::<PlayOutcome, GameError>(PlayOutcome::Tied { cell: index }),
{
    lemma_no_line_no_win(post.board@, index as int, pre.size as int);
}

/// The turn mark alternates exactly with successful moves: a successful
/// move flips it, and a rejected move leaves the whole session — turn
/// included — unchanged.
pub proof fn lemma_turn_alternation(
    pre: TictactoeGame,
    post: TictactoeGame,
    index: usize,
    acting_player: u64,
    r: Result<PlayOutcome, GameError>,
)
    requires
        TictactoeGame::play_transition(pre, post, index, acting_player, r),
    ensures
        r is Ok ==> post.turn == flip(pre.turn),
        r is Err ==> post == pre,
{
}

/// Whether every cell is filled: the tie condition once no line won.
fn board_full(board: &Vec<Option<TictactoeCell>>) -> (r: bool)
    ensures
        r == full_board(board@),
{
    let mut j: usize = 0;
    while j < board.len()
        invariant
            j <= board@.len(),
            forall|m: int| 0 <= m < j ==> (#[trigger] board@[m]) is Some,
        decreases board@.len() - j,
    {
        if board[j].is_none() {
            return false;
        }
        j += 1;
    }
    true
}

} // verus!
