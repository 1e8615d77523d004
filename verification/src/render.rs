use vstd::prelude::*;

use crate::tictactoe::TictactoeCell;

verus! {

/// What a cell shows: a neutral unrevealed tile, a bomb, the adjacent-bomb
/// digit of a revealed minesweeper cell, a tic-tac-toe mark, or an empty
/// playable square. Presentation-agnostic: turning these into emoji or
/// button labels is the platform layer's business.
#[derive(Clone, Copy, PartialEq, Eq, Structural, Debug)]
pub enum CellLabel {
    Hidden,
    BombTile,
    Digit(u8),
    Mark(TictactoeCell),
    Blank,
}

/// How a cell is emphasized.
#[derive(Clone, Copy, PartialEq, Eq, Structural, Debug)]
pub enum Emphasis {
    Neutral,
    Danger,
    Success,
    Highlighted,
}

/// One rendered cell. `index` is the flat cell index; together with the
/// game kind and the session id (both known to the caller that routes
/// actions) it identifies the cell a later action refers to.
#[derive(Clone, Copy, PartialEq, Eq, Structural, Debug)]
pub struct CellView {
    pub index: usize,
    pub label: CellLabel,
    pub emphasis: Emphasis,
    pub disabled: bool,
}

/// Whether `v` holds `x`.
pub fn contains_index(v: &Vec<usize>, x: usize) -> (r: bool)
    ensures
        r == v@.contains(x),
{
    let mut k: usize = 0;
    while k < v.len()
        invariant
            k <= v@.len(),
            forall|m: int| 0 <= m < k ==> v@[m] != x,
        decreases v@.len() - k,
    {
        if v[k] == x {
            return true;
        }
        k += 1;
    }
    false
}

} // verus!
