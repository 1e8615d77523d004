pub mod board;
pub mod minesweeper;
pub mod registry;
pub mod render;
mod sample;
pub mod tictactoe;

use vstd::prelude::*;

verus! {

/// A failure reported to the acting player or to the dispatcher.
///
/// `SessionExpired` stands for an action against a session id that the
/// registry no longer holds; the registries report it through their
/// `Expired` replies, which carry the empty fallback render.
///
/// `InvariantViolation` marks an action that the user interface should have
/// made impossible (selecting an already-revealed or already-filled cell);
/// it is tolerated as a no-op rather than crashing the process.
#[derive(Clone, Copy, PartialEq, Eq, Structural, Debug)]
pub enum GameError {
    NotYourGame,
    NotYourTurn,
    SelfJoin,
    AlreadyJoined,
    SessionExpired,
    InvariantViolation,
}

} // verus!
