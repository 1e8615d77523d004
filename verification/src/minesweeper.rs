use vstd::prelude::*;

use crate::GameError;
use crate::board::{get_adjacent_indexes, is_adjacent};
use crate::render::{contains_index, CellLabel, CellView, Emphasis};
use crate::sample::sample_distinct;

verus! {

/// State of one minesweeper cell. A cell starts `Safe` or `Bomb`; a reveal
/// turns `Safe` cells into `Checked` and nothing ever turns a `Checked` cell
/// back.
#[derive(Clone, Copy, PartialEq, Eq, Structural, Debug)]
pub enum MinesweeperCell {
    Safe,
    Checked,
    Bomb,
}

/// Number of bomb cells adjacent to `i` among the cells below `upto`.
pub open spec fn adj_bombs_upto(board: Seq<MinesweeperCell>, i: int, upto: int) -> nat
    decreases upto,
{
    if upto <= 0 {
        0
    } else {
        adj_bombs_upto(board, i, upto - 1) + (if is_adjacent(i, upto - 1) && board[upto - 1]
            is Bomb {
            1nat
        } else {
            0nat
        })
    }
}

/// Number of bomb cells in the Moore neighborhood of `i`.
pub open spec fn adj_bomb_count(board: Seq<MinesweeperCell>, i: int) -> nat {
    adj_bombs_upto(board, i, 25)
}

/// Number of `Bomb` cells below `upto`.
pub open spec fn bombs_upto(board: Seq<MinesweeperCell>, upto: int) -> nat
    decreases upto,
{
    if upto <= 0 {
        0
    } else {
        bombs_upto(board, upto - 1) + (if board[upto - 1] is Bomb {
            1nat
        } else {
            0nat
        })
    }
}

/// Number of `Safe` (still unrevealed, non-bomb) cells below `upto`.
pub open spec fn safes_upto(board: Seq<MinesweeperCell>, upto: int) -> nat
    decreases upto,
{
    if upto <= 0 {
        0
    } else {
        safes_upto(board, upto - 1) + (if board[upto - 1] is Safe {
            1nat
        } else {
            0nat
        })
    }
}

proof fn lemma_no_adjacent_in_gap(board: Seq<MinesweeperCell>, i: int, a: int, b: int)
    requires
        0 <= a <= b,
        forall|j: int| a <= j < b ==> !is_adjacent(i, j),
    ensures
        adj_bombs_upto(board, i, b) == adj_bombs_upto(board, i, a),
    decreases b - a,
{
    if a < b {
        lemma_no_adjacent_in_gap(board, i, a, b - 1);
    }
}

proof fn lemma_adj_bombs_monotone(board: Seq<MinesweeperCell>, i: int, a: int, b: int)
    requires
        a <= b,
    ensures
        adj_bombs_upto(board, i, a) <= adj_bombs_upto(board, i, b),
    decreases b - a,
{
    if a < b {
        lemma_adj_bombs_monotone(board, i, a, b - 1);
    }
}

/// A cell with no adjacent bombs has only non-bomb neighbors.
pub proof fn lemma_zero_count_no_adjacent_bomb(board: Seq<MinesweeperCell>, i: int)
    requires
        adj_bomb_count(board, i) == 0,
    ensures
        forall|j: int| 0 <= j < 25 && is_adjacent(i, j) ==> !(board[j] is Bomb),
{
    assert forall|j: int| 0 <= j < 25 && is_adjacent(i, j) implies !(board[j] is Bomb) by {
        lemma_adj_bombs_monotone(board, i, j + 1, 25);
        assert(adj_bombs_upto(board, i, j + 1) == adj_bombs_upto(board, i, j) + (if is_adjacent(
            i,
            j,
        ) && board[j] is Bomb {
            1nat
        } else {
            0nat
        }));
    }
}

/// Count of bombs among the up-to-8 neighbors of `index`: the digit a
/// revealed cell shows. Always between 0 and 8.
pub fn count_adjacent_bombs(board: &Vec<MinesweeperCell>, index: usize) -> (r: usize)
    requires
        board@.len() == 25,
        index < 25,
    ensures
        r == adj_bomb_count(board@, index as int),
        r <= 8,
{
    let ns = get_adjacent_indexes(index);
    let mut cnt: usize = 0;
    let mut k: usize = 0;
    while k < ns.len()
        invariant
            board@.len() == 25,
            index < 25,
            k <= ns@.len(),
            ns@.len() <= 8,
            cnt <= k,
            forall|m: int| 0 <= m < ns@.len() ==> is_adjacent(index as int, #[trigger] ns@[m] as int),
            forall|j: usize| is_adjacent(index as int, j as int) ==> #[trigger] ns@.contains(j),
            forall|m1: int, m2: int| 0 <= m1 < m2 < ns@.len() ==> ns@[m1] < ns@[m2],
            cnt == adj_bombs_upto(
                board@,
                index as int,
                if k == 0 {
                    0int
                } else {
                    ns@[k - 1] + 1
                },
            ),
        decreases ns@.len() - k,
    {
        let n = ns[k];
        proof {
            let lo: int = if k == 0 {
                0int
            } else {
                ns@[k as int - 1] + 1
            };
            assert forall|j: int| lo <= j < n as int implies !is_adjacent(index as int, j) by {
                if is_adjacent(index as int, j) {
                    assert(ns@.contains(j as usize));
                    let m = choose|m: int| 0 <= m < ns@.len() && ns@[m] == j as usize;
                    if m < k {
                        assert(m <= k - 1);
                        if m < k - 1 {
                            assert(ns@[m] < ns@[k - 1]);
                        }
                        assert(j <= ns@[k as int - 1]);
                    } else {
                        if m > k {
                            assert(ns@[k as int] < ns@[m]);
                        }
                        assert(j >= n as int);
                    }
                }
            }
            lemma_no_adjacent_in_gap(board@, index as int, lo, n as int);
            assert(adj_bombs_upto(board@, index as int, n as int + 1) == adj_bombs_upto(
                board@,
                index as int,
                n as int,
            ) + (if is_adjacent(index as int, n as int) && board@[n as int] is Bomb {
                1nat
            } else {
                0nat
            }));
        }
        if matches!(board[n], MinesweeperCell::Bomb) {
            cnt += 1;
        }
        k += 1;
    }
    proof {
        let lo: int = if ns@.len() == 0 {
            0int
        } else {
            ns@[ns@.len() - 1] + 1
        };
        assert forall|j: int| lo <= j < 25 implies !is_adjacent(index as int, j) by {
            if is_adjacent(index as int, j) {
                assert(ns@.contains(j as usize));
                let m = choose|m: int| 0 <= m < ns@.len() && ns@[m] == j as usize;
                if m < ns@.len() - 1 {
                    assert(ns@[m] < ns@[ns@.len() - 1]);
                }
                assert(j <= ns@[ns@.len() - 1]);
            }
        }
        lemma_no_adjacent_in_gap(board@, index as int, lo, 25);
    }
    cnt
}

/// Number of `true` entries below `upto`.
pub open spec fn count_true_upto(s: Seq<bool>, upto: int) -> nat
    decreases upto,
{
    if upto <= 0 {
        0
    } else {
        count_true_upto(s, upto - 1) + (if s[upto - 1] {
            1nat
        } else {
            0nat
        })
    }
}

proof fn lemma_count_true_le(s: Seq<bool>, upto: int)
    requires
        upto >= 0,
    ensures
        count_true_upto(s, upto) <= upto,
    decreases upto,
{
    if upto > 0 {
        lemma_count_true_le(s, upto - 1);
    }
}

proof fn lemma_count_true_agree(s: Seq<bool>, t: Seq<bool>, upto: int)
    requires
        forall|m: int| 0 <= m < upto ==> s[m] == t[m],
    ensures
        count_true_upto(s, upto) == count_true_upto(t, upto),
    decreases upto,
{
    if upto > 0 {
        lemma_count_true_agree(s, t, upto - 1);
    }
}

proof fn lemma_count_true_update(s: Seq<bool>, j: int, upto: int)
    requires
        0 <= j < upto <= s.len(),
        !s[j],
    ensures
        count_true_upto(s.update(j, true), upto) == count_true_upto(s, upto) + 1,
    decreases upto,
{
    if j == upto - 1 {
        lemma_count_true_agree(s.update(j, true), s, upto - 1);
    } else {
        lemma_count_true_update(s, j, upto - 1);
    }
}

/// The reveal set `s` (a membership table over the 25 cells) is closed under
/// the cascade rule: a member with no adjacent bombs pulls in each of its
/// not-yet-revealed neighbors.
pub open spec fn fill_closed(board: Seq<MinesweeperCell>, s: Seq<bool>) -> bool {
    forall|c: int, n: int|
        0 <= c < 25 && 0 <= n < 25 && s[c] && adj_bomb_count(board, c) == 0 && #[trigger] is_adjacent(
            c,
            n,
        ) && !(board[n] is Checked) ==> s[n]
}

/// Every member of the table `s` lies in the mathematical set `g`.
pub open spec fn covers(s: Seq<bool>, g: Set<int>) -> bool {
    forall|j: int| 0 <= j < 25 && s[j] ==> g.contains(j)
}

/// Closure of a mathematical cell set under the cascade rule.
pub open spec fn set_fill_closed(board: Seq<MinesweeperCell>, g: Set<int>) -> bool {
    forall|c: int, n: int|
        g.contains(c) && 0 <= c < 25 && 0 <= n < 25 && adj_bomb_count(board, c) == 0
            && #[trigger] is_adjacent(c, n) && !(board[n] is Checked) ==> g.contains(n)
}

/// `out` is the flood fill of `init` on `board`: it contains `init`, holds
/// only `Safe` cells, is closed under the cascade rule, and is the least
/// such set.
pub open spec fn is_zero_fill(
    board: Seq<MinesweeperCell>,
    init: Seq<bool>,
    out: Seq<bool>,
) -> bool {
    &&& out.len() == 25
    &&& forall|j: int| 0 <= j < 25 && init[j] ==> out[j]
    &&& forall|j: int| 0 <= j < 25 && #[trigger] out[j] ==> board[j] is Safe
    &&& fill_closed(board, out)
    &&& forall|g: Set<int>|
        #[trigger] set_fill_closed(board, g) && covers(init, g) ==> covers(out, g)
}

/// Flood fill is idempotent at its fixed point: running the fill again on
/// its own output yields the same set.
pub proof fn lemma_zero_fill_idempotent(
    board: Seq<MinesweeperCell>,
    init: Seq<bool>,
    once: Seq<bool>,
    twice: Seq<bool>,
)
    requires
        is_zero_fill(board, init, once),
        is_zero_fill(board, once, twice),
    ensures
        twice == once,
{
    let g = Set::new(|j: int| 0 <= j < 25 && once[j]);
    assert(covers(once, g));
    assert(set_fill_closed(board, g)) by {
        assert forall|c: int, n: int|
            g.contains(c) && 0 <= c < 25 && 0 <= n < 25 && adj_bomb_count(board, c) == 0
                && #[trigger] is_adjacent(c, n) && !(board[n] is Checked) implies g.contains(n) by {
            assert(once[c]);
            assert(once[n]);
        }
    }
    assert(covers(twice, g));
    assert forall|j: int| 0 <= j < twice.len() implies twice[j] == once[j] by {
        if twice[j] {
            assert(g.contains(j));
        }
    }
    assert(twice =~= once);
}

/// Iterative fixed-point flood fill: starting from the membership table
/// `set`, repeatedly add the unrevealed neighbors of every member that has
/// no adjacent bombs, until the set stops growing.
pub fn zero_fill(board: &Vec<MinesweeperCell>, set: Vec<bool>) -> (r: Vec<bool>)
    requires
        board@.len() == 25,
        set@.len() == 25,
        forall|j: int| 0 <= j < 25 && set@[j] ==> board@[j] is Safe,
    ensures
        is_zero_fill(board@, set@, r@),
{
    let ghost init = set@;
    let mut cur = set;
    proof {
        lemma_count_true_le(cur@, 25);
    }
    loop
        invariant_except_break
            board@.len() == 25,
            cur@.len() == 25,
            init.len() == 25,
            count_true_upto(cur@, 25) <= 25,
            forall|j: int| 0 <= j < 25 && init[j] ==> cur@[j],
            forall|j: int| 0 <= j < 25 && #[trigger] cur@[j] ==> board@[j] is Safe,
            forall|g: Set<int>|
                #[trigger] set_fill_closed(board@, g) && covers(init, g) ==> covers(cur@, g),
        ensures
            is_zero_fill(board@, init, cur@),
        decreases 25 - count_true_upto(cur@, 25),
    {
        let mut changed = false;
        let ghost snap = cur@;
        let mut s: usize = 0;
        while s < 25
            invariant
                board@.len() == 25,
                cur@.len() == 25,
                init.len() == 25,
                snap.len() == 25,
                s <= 25,
                forall|j: int| 0 <= j < 25 && init[j] ==> cur@[j],
                forall|j: int| 0 <= j < 25 && #[trigger] cur@[j] ==> board@[j] is Safe,
                forall|g: Set<int>|
                    #[trigger] set_fill_closed(board@, g) && covers(init, g) ==> covers(cur@, g),
                !changed ==> cur@ == snap,
                changed ==> count_true_upto(cur@, 25) > count_true_upto(snap, 25),
                !changed ==> forall|c: int, n: int|
                    0 <= c < s && 0 <= n < 25 && cur@[c] && adj_bomb_count(board@, c) == 0
                        && #[trigger] is_adjacent(c, n) && !(board@[n] is Checked) ==> cur@[n],
            decreases 25 - s,
        {
            let member = cur[s];
            if member {
                if count_adjacent_bombs(board, s) == 0 {
                    proof {
                        lemma_zero_count_no_adjacent_bomb(board@, s as int);
                    }
                    let ns = get_adjacent_indexes(s);
                    let mut k: usize = 0;
                    while k < ns.len()
                        invariant
                            board@.len() == 25,
                            cur@.len() == 25,
                            init.len() == 25,
                            snap.len() == 25,
                            s < 25,
                            k <= ns@.len(),
                            cur@[s as int],
                            adj_bomb_count(board@, s as int) == 0,
                            forall|j: int|
                                0 <= j < 25 && is_adjacent(s as int, j) ==> !(board@[j] is Bomb),
                            forall|m: int|
                                0 <= m < ns@.len() ==> is_adjacent(
                                    s as int,
                                    #[trigger] ns@[m] as int,
                                ),
                            forall|j: usize|
                                is_adjacent(s as int, j as int) ==> #[trigger] ns@.contains(j),
                            forall|j: int| 0 <= j < 25 && init[j] ==> cur@[j],
                            forall|j: int| 0 <= j < 25 && #[trigger] cur@[j] ==> board@[j] is Safe,
                            forall|g: Set<int>|
                                #[trigger] set_fill_closed(board@, g) && covers(init, g) ==> covers(
                                    cur@,
                                    g,
                                ),
                            !changed ==> cur@ == snap,
                            changed ==> count_true_upto(cur@, 25) > count_true_upto(snap, 25),
                            !changed ==> forall|c: int, n: int|
                                0 <= c < s && 0 <= n < 25 && cur@[c] && adj_bomb_count(board@, c)
                                    == 0 && #[trigger] is_adjacent(c, n) && !(board@[n] is Checked)
                                    ==> cur@[n],
                            forall|m: int|
                                0 <= m < k ==> (board@[#[trigger] ns@[m] as int] is Checked
                                    || cur@[ns@[m] as int]),
                        decreases ns@.len() - k,
                    {
                        let n = ns[k];
                        let is_checked = matches!(board[n], MinesweeperCell::Checked);
                        if !is_checked {
                            let already = cur[n];
                            if !already {
                                let ghost prev = cur@;
                                proof {
                                    lemma_count_true_update(cur@, n as int, 25);
                                    lemma_count_true_le(snap, 25);
                                }
                                cur.set(n, true);
                                changed = true;
                                proof {
                                    assert(!(board@[n as int] is Bomb));
                                    assert(board@[n as int] is Safe);
                                    assert forall|g: Set<int>|
                                        #[trigger] set_fill_closed(board@, g) && covers(init, g)
                                            implies covers(cur@, g) by {
                                        assert(covers(prev, g));
                                        assert(g.contains(s as int));
                                        assert(g.contains(n as int));
                                        assert forall|j: int| 0 <= j < 25 && cur@[j] implies g
                                            .contains(j) by {
                                            if j != n as int {
                                                assert(prev[j]);
                                            }
                                        }
                                    }
                                    if count_true_upto(prev, 25) > count_true_upto(snap, 25) {
                                    } else {
                                        lemma_count_true_agree(prev, snap, 25);
                                    }
                                }
                            }
                        }
                        k += 1;
                    }
                    proof {
                        if !changed {
                            assert forall|n: int|
                                0 <= n < 25 && #[trigger] is_adjacent(s as int, n) && !(board@[n]
                                    is Checked) implies cur@[n] by {
                                assert(ns@.contains(n as usize));
                                let m = choose|m: int| 0 <= m < ns@.len() && ns@[m] == n as usize;
                                assert(board@[ns@[m] as int] is Checked || cur@[ns@[m] as int]);
                            }
                        }
                    }
                }
            }
            s += 1;
        }
        proof {
            lemma_count_true_le(cur@, 25);
        }
        if !changed {
            proof {
                assert(fill_closed(board@, cur@));
            }
            break;
        }
    }
    cur
}

/// Number of `Checked` (revealed) cells below `upto`.
pub open spec fn checkeds_upto(board: Seq<MinesweeperCell>, upto: int) -> nat
    decreases upto,
{
    if upto <= 0 {
        0
    } else {
        checkeds_upto(board, upto - 1) + (if board[upto - 1] is Checked {
            1nat
        } else {
            0nat
        })
    }
}

/// Every cell is exactly one of `Safe`, `Checked`, `Bomb`, so the three
/// counts partition the board.
pub proof fn lemma_counts_partition(board: Seq<MinesweeperCell>, upto: int)
    requires
        upto >= 0,
    ensures
        safes_upto(board, upto) + bombs_upto(board, upto) + checkeds_upto(board, upto) == upto,
    decreases upto,
{
    if upto > 0 {
        lemma_counts_partition(board, upto - 1);
    }
}

/// Two boards with bombs in the same places have the same bomb count.
proof fn lemma_bombs_upto_same(s: Seq<MinesweeperCell>, t: Seq<MinesweeperCell>, upto: int)
    requires
        forall|m: int| 0 <= m < upto ==> ((s[m] is Bomb) <==> (t[m] is Bomb)),
    ensures
        bombs_upto(s, upto) == bombs_upto(t, upto),
    decreases upto,
{
    if upto > 0 {
        lemma_bombs_upto_same(s, t, upto - 1);
    }
}

proof fn lemma_bombs_upto_zero(s: Seq<MinesweeperCell>, upto: int)
    requires
        forall|m: int| 0 <= m < upto ==> !(s[m] is Bomb),
    ensures
        bombs_upto(s, upto) == 0,
    decreases upto,
{
    if upto > 0 {
        lemma_bombs_upto_zero(s, upto - 1);
    }
}

proof fn lemma_bombs_upto_set_bomb(s: Seq<MinesweeperCell>, j: int, upto: int)
    requires
        0 <= j < upto <= s.len(),
        !(s[j] is Bomb),
    ensures
        bombs_upto(s.update(j, MinesweeperCell::Bomb), upto) == bombs_upto(s, upto) + 1,
    decreases upto,
{
    if j == upto - 1 {
        lemma_bombs_upto_same(s.update(j, MinesweeperCell::Bomb), s, upto - 1);
    } else {
        lemma_bombs_upto_set_bomb(s, j, upto - 1);
    }
}

/// Which cells of `b` are revealed, as a membership table.
pub open spec fn checked_set(b: Seq<MinesweeperCell>) -> Seq<bool> {
    Seq::new(25, |j: int| b[j] is Checked)
}

/// `b` with every revealed cell turned back to `Safe`: the board as it was
/// generated, before any reveal.
pub open spec fn mask_checked(b: Seq<MinesweeperCell>) -> Seq<MinesweeperCell> {
    Seq::new(
        25,
        |j: int|
            if b[j] is Checked {
                MinesweeperCell::Safe
            } else {
                b[j]
            },
    )
}

/// The membership table holding exactly cell `i`.
pub open spec fn singleton_set(i: int) -> Seq<bool> {
    Seq::new(25, |j: int| j == i)
}

/// `b` with every cell of the table `f` marked `Checked`.
pub open spec fn apply_fill(b: Seq<MinesweeperCell>, f: Seq<bool>) -> Seq<MinesweeperCell> {
    Seq::new(
        25,
        |j: int|
            if f[j] {
                MinesweeperCell::Checked
            } else {
                b[j]
            },
    )
}

/// The cells revealed by one move: `Checked` now but not before.
pub open spec fn newly_checked(b0: Seq<MinesweeperCell>, b1: Seq<MinesweeperCell>) -> Seq<bool> {
    Seq::new(25, |j: int| b1[j] is Checked && !(b0[j] is Checked))
}

/// `r` lists exactly the members of the table `s`, each below 25.
pub open spec fn lists_set(r: Seq<usize>, s: Seq<bool>) -> bool {
    &&& forall|k: int| 0 <= k < r.len() ==> r[k] < 25 && s[#[trigger] r[k] as int]
    &&& forall|j: usize| j < 25 && s[j as int] ==> #[trigger] r.contains(j)
}

/// Seconds from `start` to `now`, clipped at zero.
pub open spec fn elapsed_since(start: u64, now: u64) -> u64 {
    if now >= start {
        (now - start) as u64
    } else {
        0u64
    }
}

/// Number of `Safe` cells still hidden on the board.
pub fn count_safe_cells(board: &Vec<MinesweeperCell>) -> (r: usize)
    requires
        board@.len() == 25,
    ensures
        r == safes_upto(board@, 25),
        r <= 25,
{
    let mut cnt: usize = 0;
    let mut j: usize = 0;
    while j < 25
        invariant
            board@.len() == 25,
            j <= 25,
            cnt <= j,
            cnt == safes_upto(board@, j as int),
        decreases 25 - j,
    {
        if matches!(board[j], MinesweeperCell::Safe) {
            cnt += 1;
        }
        j += 1;
    }
    cnt
}

/// The indices of the members of a membership table, in increasing order.
fn collect_marked(set: &Vec<bool>) -> (r: Vec<usize>)
    requires
        set@.len() == 25,
    ensures
        lists_set(r@, set@),
        forall|k1: int, k2: int| 0 <= k1 < k2 < r@.len() ==> r@[k1] < r@[k2],
{
    let mut r: Vec<usize> = Vec::new();
    let mut j: usize = 0;
    while j < 25
        invariant
            set@.len() == 25,
            j <= 25,
            forall|k: int| 0 <= k < r@.len() ==> r@[k] < j && set@[#[trigger] r@[k] as int],
            forall|i: usize| i < j && set@[i as int] ==> #[trigger] r@.contains(i),
            forall|k1: int, k2: int| 0 <= k1 < k2 < r@.len() ==> r@[k1] < r@[k2],
        decreases 25 - j,
    {
        let ghost prev = r@;
        if set[j] {
            r.push(j);
        }
        proof {
            assert forall|i: usize| i < j + 1 && set@[i as int] implies r@.contains(i) by {
                if i < j {
                    assert(prev.contains(i));
                    let k = choose|k: int| 0 <= k < prev.len() && prev[k] == i;
                    assert(r@[k] == i);
                } else {
                    assert(r@[r@.len() - 1] == i);
                }
            }
        }
        j += 1;
    }
    r
}

/// What one minesweeper cell shows. Before the board exists every cell is
/// a neutral hidden tile. Afterwards: revealed cells show their
/// adjacent-bomb digit, disabled, in the success style; hidden cells show
/// a neutral tile until the game ends, when bombs are shown in the danger
/// style and every cell is disabled; the cells selected by the last move
/// carry their own style as a highlight.
pub open spec fn ms_cell_view(
    game: MinesweeperGame,
    selected: Seq<usize>,
    game_over: bool,
    index: int,
) -> CellView {
    match game.board {
        Some(b) => {
            let count = adj_bomb_count(b@, index);
            let label = match b@[index] {
                MinesweeperCell::Bomb => if game_over {
                    CellLabel::BombTile
                } else {
                    CellLabel::Hidden
                },
                MinesweeperCell::Safe => if game_over {
                    CellLabel::Digit(count as u8)
                } else {
                    CellLabel::Hidden
                },
                MinesweeperCell::Checked => CellLabel::Digit(count as u8),
            };
            let cell_emphasis = match b@[index] {
                MinesweeperCell::Bomb => Emphasis::Danger,
                MinesweeperCell::Safe => Emphasis::Neutral,
                MinesweeperCell::Checked => Emphasis::Success,
            };
            let emphasis = if selected.contains(index as usize) {
                cell_emphasis
            } else if game_over && b@[index] is Checked {
                Emphasis::Success
            } else {
                Emphasis::Neutral
            };
            let disabled = match b@[index] {
                MinesweeperCell::Checked => true,
                _ => game_over,
            };
            CellView { index: index as usize, label, emphasis, disabled }
        },
        None => CellView {
            index: index as usize,
            label: CellLabel::Hidden,
            emphasis: Emphasis::Neutral,
            disabled: false,
        },
    }
}

/// `grid` is the rendered board: 5 rows of 5 cells, each exactly as
/// `ms_cell_view` prescribes.
pub open spec fn is_ms_render(
    grid: Seq<Vec<CellView>>,
    game: MinesweeperGame,
    selected: Seq<usize>,
    game_over: bool,
) -> bool {
    &&& grid.len() == 5
    &&& forall|y: int| 0 <= y < 5 ==> (#[trigger] grid[y])@.len() == 5
    &&& forall|y: int, x: int|
        0 <= y < 5 && 0 <= x < 5 ==> #[trigger] grid[y]@[x] == ms_cell_view(
            game,
            selected,
            game_over,
            y * 5 + x,
        )
}

/// Render the board as an ordered grid of cell descriptors, highlighting
/// the cells of the last move.
pub fn render_board(game: &MinesweeperGame, selected: &Vec<usize>, game_over: bool) -> (grid: Vec<
    Vec<CellView>,
>)
    requires
        game.wf(),
    ensures
        is_ms_render(grid@, *game, selected@, game_over),
{
    let mut grid: Vec<Vec<CellView>> = Vec::new();
    let mut y: usize = 0;
    while y < 5
        invariant
            game.wf(),
            y <= 5,
            grid@.len() == y,
            forall|m: int| 0 <= m < y ==> (#[trigger] grid@[m])@.len() == 5,
            forall|m: int, x: int|
                0 <= m < y && 0 <= x < 5 ==> #[trigger] grid@[m]@[x] == ms_cell_view(
                    *game,
                    selected@,
                    game_over,
                    m * 5 + x,
                ),
        decreases 5 - y,
    {
        let mut rowv: Vec<CellView> = Vec::new();
        let mut x: usize = 0;
        while x < 5
            invariant
                game.wf(),
                y < 5,
                x <= 5,
                rowv@.len() == x,
                forall|m: int|
                    0 <= m < x ==> #[trigger] rowv@[m] == ms_cell_view(
                        *game,
                        selected@,
                        game_over,
                        y * 5 + m,
                    ),
            decreases 5 - x,
        {
            let index = y * 5 + x;
            let view = match &game.board {
                Some(b) => {
                    let count = count_adjacent_bombs(b, index);
                    let cell = b[index];
                    let label = match cell {
                        MinesweeperCell::Bomb => if game_over {
                            CellLabel::BombTile
                        } else {
                            CellLabel::Hidden
                        },
                        MinesweeperCell::Safe => if game_over {
                            CellLabel::Digit(count as u8)
                        } else {
                            CellLabel::Hidden
                        },
                        MinesweeperCell::Checked => CellLabel::Digit(count as u8),
                    };
                    let cell_emphasis = match cell {
                        MinesweeperCell::Bomb => Emphasis::Danger,
                        MinesweeperCell::Safe => Emphasis::Neutral,
                        MinesweeperCell::Checked => Emphasis::Success,
                    };
                    let hl = contains_index(selected, index);
                    let emphasis = if hl {
                        cell_emphasis
                    } else if game_over && matches!(cell, MinesweeperCell::Checked) {
                        Emphasis::Success
                    } else {
                        Emphasis::Neutral
                    };
                    let disabled = match cell {
                        MinesweeperCell::Checked => true,
                        _ => game_over,
                    };
                    CellView { index, label, emphasis, disabled }
                },
                None => CellView {
                    index,
                    label: CellLabel::Hidden,
                    emphasis: Emphasis::Neutral,
                    disabled: false,
                },
            };
            rowv.push(view);
            x += 1;
        }
        grid.push(rowv);
        y += 1;
    }
    grid
}

/// What one reveal did: the game goes on (with the cells the cascade
/// revealed), ends in a win or a loss (with the numbers the player is
/// shown), or was a no-op on an already-revealed cell.
#[derive(PartialEq, Eq, Debug)]
pub enum RevealOutcome {
    Continue { revealed: Vec<usize> },
    Won { revealed: Vec<usize>, bombs: usize, elapsed: u64 },
    Lost { exploded: usize, bombs: usize, cleared: usize, total: usize, elapsed: u64 },
    AlreadyRevealed,
}

/// One minesweeper game: the owning player, the configured mine count, the
/// start time (set on the first reveal), and the board (generated on the
/// first reveal, so that the first click is always safe).
pub struct MinesweeperGame {
    pub player: u64,
    pub mines: usize,
    pub start_time: Option<u64>,
    pub board: Option<Vec<MinesweeperCell>>,
}

impl MinesweeperGame {
    /// The session invariant: fewer mines than cells; the board and the
    /// clock appear together; once generated, the board has 25 cells of
    /// which exactly `mines` are bombs.
    pub open spec fn wf(self) -> bool {
        &&& self.mines < 25
        &&& (self.board is Some <==> self.start_time is Some)
        &&& match self.board {
            Some(b) => b@.len() == 25 && bombs_upto(b@, 25) == self.mines,
            None => true,
        }
    }

    /// A fresh session: no board yet, the clock not started.
    pub fn new(player: u64, mines: usize) -> (g: MinesweeperGame)
        requires
            mines < 25,
        ensures
            g.wf(),
            g.player == player,
            g.mines == mines,
            g.board is None,
            g.start_time is None,
    {
        MinesweeperGame { player, mines, start_time: None, board: None }
    }

    /// Generate the board, choosing `mines` bomb positions at random from
    /// the 25 cells excluding `safe_cell_index`, and start the clock.
    /// The excluded cell is `Safe` by construction.
    pub fn start_game(&mut self, safe_cell_index: usize, now: u64)
        requires
            old(self).wf(),
            old(self).board is None,
            safe_cell_index < 25,
        ensures
            final(self).wf(),
            final(self).player == old(self).player,
            final(self).mines == old(self).mines,
            final(self).start_time == Some(now),
            final(self).board matches Some(b) && {
                &&& b@.len() == 25
                &&& bombs_upto(b@, 25) == old(self).mines
                &&& b@[safe_cell_index as int] is Safe
                &&& forall|j: int| 0 <= j < 25 ==> (b@[j] is Safe || b@[j] is Bomb)
            },
    {
        let mut candidates: Vec<usize> = Vec::new();
        let mut j: usize = 0;
        while j < 25
            invariant
                safe_cell_index < 25,
                j <= 25,
                candidates@.len() == (if j <= safe_cell_index {
                    j as int
                } else {
                    j - 1
                }),
                forall|k: int|
                    0 <= k < candidates@.len() ==> #[trigger] candidates@[k] < j && candidates@[k]
                        != safe_cell_index,
                forall|k1: int, k2: int|
                    0 <= k1 < k2 < candidates@.len() ==> candidates@[k1] < candidates@[k2],
            decreases 25 - j,
        {
            if j != safe_cell_index {
                candidates.push(j);
            }
            j += 1;
        }
        let bombs = sample_distinct(&candidates, self.mines);
        proof {
            assert(bombs@.len() == self.mines);
            assert forall|k: int| 0 <= k < bombs@.len() implies #[trigger] bombs@[k] < 25
                && bombs@[k] != safe_cell_index by {
                assert(candidates@.contains(bombs@[k]));
                let m = choose|m: int| 0 <= m < candidates@.len() && candidates@[m] == bombs@[k];
            }
        }
        let mut board: Vec<MinesweeperCell> = Vec::new();
        let mut i: usize = 0;
        while i < 25
            invariant
                i <= 25,
                board@.len() == i,
                forall|m: int| 0 <= m < i ==> #[trigger] board@[m] is Safe,
            decreases 25 - i,
        {
            board.push(MinesweeperCell::Safe);
            i += 1;
        }
        proof {
            lemma_bombs_upto_zero(board@, 25);
        }
        let mut k: usize = 0;
        while k < bombs.len()
            invariant
                safe_cell_index < 25,
                board@.len() == 25,
                k <= bombs@.len(),
                forall|m: int|
                    0 <= m < bombs@.len() ==> #[trigger] bombs@[m] < 25 && bombs@[m]
                        != safe_cell_index,
                forall|m1: int, m2: int| 0 <= m1 < m2 < bombs@.len() ==> bombs@[m1] != bombs@[m2],
                bombs_upto(board@, 25) == k,
                forall|m: int| 0 <= m < 25 ==> (board@[m] is Safe || board@[m] is Bomb),
                board@[safe_cell_index as int] is Safe,
                forall|m: int|
                    0 <= m < 25 ==> ((board@[m] is Bomb) <==> (exists|t: int|
                        0 <= t < k && bombs@[t] == m)),
            decreases bombs@.len() - k,
        {
            let b = bombs[k];
            proof {
                if board@[b as int] is Bomb {
                    let t = choose|t: int| 0 <= t < k && bombs@[t] == b as int;
                    assert(bombs@[t] == bombs@[k as int]);
                    assert(false);
                }
                lemma_bombs_upto_set_bomb(board@, b as int, 25);
            }
            board.set(b, MinesweeperCell::Bomb);
            proof {
                assert forall|m: int|
                    0 <= m < 25 implies ((board@[m] is Bomb) <==> (exists|t: int|
                        0 <= t < k + 1 && bombs@[t] == m)) by {
                    if board@[m] is Bomb {
                        if m == b as int {
                            assert(bombs@[k as int] == m);
                        } else {
                            let t = choose|t: int| 0 <= t < k && bombs@[t] == m;
                            assert(0 <= t < k + 1 && bombs@[t] == m);
                        }
                    } else {
                        if exists|t: int| 0 <= t < k + 1 && bombs@[t] == m {
                            let t = choose|t: int| 0 <= t < k + 1 && bombs@[t] == m;
                            assert(t < k);
                        }
                    }
                }
            }
            k += 1;
        }
        self.start_time = Some(now);
        self.board = Some(board);
    }

    /// The game ended in a loss: the bomb at `exploded` was revealed, and
    /// the reported numbers are exact: `cleared` revealed cells out of the
    /// `total` non-bomb cells, and the elapsed seconds.
    pub open spec fn lost_outcome(
        r: Result<RevealOutcome, GameError>,
        exploded_at: usize,
        mine_count: usize,
        cleared_count: nat,
        elapsed_secs: u64,
    ) -> bool {
        match r {
            Ok(RevealOutcome::Lost { exploded, bombs, cleared, total, elapsed }) => {
                &&& exploded == exploded_at
                &&& bombs == mine_count
                &&& cleared == cleared_count
                &&& total == 25 - mine_count
                &&& elapsed == elapsed_secs
            },
            _ => false,
        }
    }

    /// A successful reveal on `board_after`: the game continues while a
    /// safe cell remains, and is won exactly when none does; either way the
    /// outcome lists exactly the cells of `newly` (the ones this reveal
    /// turned `Checked`).
    pub open spec fn progress_outcome(
        r: Result<RevealOutcome, GameError>,
        board_after: Seq<MinesweeperCell>,
        newly: Seq<bool>,
        mine_count: usize,
        elapsed_secs: u64,
    ) -> bool {
        match r {
            Ok(RevealOutcome::Continue { revealed }) => safes_upto(board_after, 25) > 0
                && lists_set(revealed@, newly),
            Ok(RevealOutcome::Won { revealed, bombs, elapsed }) => {
                &&& safes_upto(board_after, 25) == 0
                &&& lists_set(revealed@, newly)
                &&& bombs == mine_count
                &&& elapsed == elapsed_secs
            },
            _ => false,
        }
    }

    /// The whole reveal state machine, relating the session before and
    /// after one action to its result.
    pub open spec fn reveal_transition(
        pre: MinesweeperGame,
        post: MinesweeperGame,
        index: usize,
        acting_player: u64,
        now: u64,
        r: Result<RevealOutcome, GameError>,
    ) -> bool {
        if acting_player != pre.player {
            r == Err::<RevealOutcome, GameError>(GameError::NotYourGame) && post == pre
        } else {
            match pre.board {
                None => {
                    // First reveal: the board comes to exist, `index` is
                    // revealed (so it is no bomb), and the revealed cells
                    // are the flood fill of `index` on the generated board.
                    &&& post.start_time == Some(now)
                    &&& match post.board {
                        Some(b) => {
                            &&& b@.len() == 25
                            &&& bombs_upto(b@, 25) == pre.mines
                            &&& b@[index as int] is Checked
                            &&& is_zero_fill(
                                mask_checked(b@),
                                singleton_set(index as int),
                                checked_set(b@),
                            )
                            &&& Self::progress_outcome(r, b@, checked_set(b@), pre.mines, 0)
                        },
                        None => false,
                    }
                },
                Some(b0) => match b0@[index as int] {
                    MinesweeperCell::Bomb => {
                        &&& post == pre
                        &&& Self::lost_outcome(
                            r,
                            index,
                            pre.mines,
                            checkeds_upto(b0@, 25),
                            elapsed_since(pre.start_time.unwrap(), now),
                        )
                    },
                    MinesweeperCell::Checked => {
                        // Anomaly tolerated as a no-op: the interface
                        // should have disabled this cell.
                        &&& post == pre
                        &&& r == Ok::<RevealOutcome, GameError>(RevealOutcome::AlreadyRevealed)
                    },
                    MinesweeperCell::Safe => {
                        &&& post.player == pre.player
                        &&& post.mines == pre.mines
                        &&& post.start_time == pre.start_time
                        &&& match post.board {
                            Some(b1) => {
                                let newly = newly_checked(b0@, b1@);
                                &&& b1@.len() == 25
                                &&& is_zero_fill(b0@, singleton_set(index as int), newly)
                                &&& b1@ == apply_fill(b0@, newly)
                                &&& forall|j: int|
                                    0 <= j < 25 && b0@[j] is Checked ==> b1@[j] is Checked
                                &&& forall|j: int|
                                    0 <= j < 25 ==> ((b0@[j] is Bomb) <==> (b1@[j] is Bomb))
                                &&& b1@[index as int] is Checked
                                &&& Self::progress_outcome(
                                    r,
                                    b1@,
                                    newly,
                                    pre.mines,
                                    elapsed_since(pre.start_time.unwrap(), now),
                                )
                            },
                            None => false,
                        }
                    },
                },
            }
        }
    }

    /// One player action: reveal the cell at `index`.
    ///
    /// Fails with `NotYourGame` for anyone but the owning player. On the
    /// first reveal the board is generated with `index` excluded from the
    /// bomb positions, so the first click is always safe. Revealing a bomb
    /// loses; revealing a safe cell cascades through the flood fill, and
    /// wins when no safe cell remains; revealing an already-revealed cell
    /// is tolerated as a no-op.
    pub fn reveal_cell(&mut self, index: usize, acting_player: u64, now: u64) -> (r: Result<
        RevealOutcome,
        GameError,
    >)
        requires
            old(self).wf(),
            index < 25,
        ensures
            final(self).wf(),
            final(self).player == old(self).player,
            final(self).mines == old(self).mines,
            Self::reveal_transition(*old(self), *final(self), index, acting_player, now, r),
    {
        if acting_player != self.player {
            return Err(GameError::NotYourGame);
        }
        let ghost fresh = old(self).board is None;
        if self.board.is_none() {
            self.start_game(index, now);
        }
        let b_ref = self.board.as_ref().unwrap();
        let ghost b0 = b_ref@;
        let cell = b_ref[index];
        match cell {
            MinesweeperCell::Bomb => {
                proof {
                    lemma_counts_partition(b0, 25);
                }
                let safes = count_safe_cells(b_ref);
                let cleared: usize = 25 - safes - self.mines;
                let total: usize = 25 - self.mines;
                let st = self.start_time.unwrap();
                let elapsed = if now >= st {
                    now - st
                } else {
                    0
                };
                Ok(
                    RevealOutcome::Lost {
                        exploded: index,
                        bombs: self.mines,
                        cleared,
                        total,
                        elapsed,
                    },
                )
            },
            MinesweeperCell::Checked => Ok(RevealOutcome::AlreadyRevealed),
            MinesweeperCell::Safe => {
                let mut mask: Vec<bool> = Vec::new();
                let mut i: usize = 0;
                while i < 25
                    invariant
                        i <= 25,
                        mask@.len() == i,
                        forall|m: int| 0 <= m < i ==> !(#[trigger] mask@[m]),
                    decreases 25 - i,
                {
                    mask.push(false);
                    i += 1;
                }
                mask.set(index, true);
                proof {
                    assert(mask@ =~= singleton_set(index as int));
                }
                let fill = zero_fill(b_ref, mask);
                let mut nb: Vec<MinesweeperCell> = Vec::new();
                let mut i2: usize = 0;
                while i2 < 25
                    invariant
                        i2 <= 25,
                        b0.len() == 25,
                        fill@.len() == 25,
                        b_ref@ == b0,
                        nb@.len() == i2,
                        forall|m: int|
                            0 <= m < i2 ==> #[trigger] nb@[m] == (if fill@[m] {
                                MinesweeperCell::Checked
                            } else {
                                b0[m]
                            }),
                    decreases 25 - i2,
                {
                    if fill[i2] {
                        nb.push(MinesweeperCell::Checked);
                    } else {
                        nb.push(b_ref[i2]);
                    }
                    i2 += 1;
                }
                let revealed = collect_marked(&fill);
                let safes_after = count_safe_cells(&nb);
                proof {
                    assert(nb@ =~= apply_fill(b0, fill@));
                    assert(newly_checked(b0, nb@) =~= fill@);
                    assert forall|m: int|
                        0 <= m < 25 implies ((b0[m] is Bomb) <==> (nb@[m] is Bomb)) by {
                        if fill@[m] {
                            assert(b0[m] is Safe);
                        }
                    }
                    lemma_bombs_upto_same(b0, nb@, 25);
                }
                let bombs_n = self.mines;
                let st = self.start_time.unwrap();
                let elapsed = if now >= st {
                    now - st
                } else {
                    0
                };
                self.board = Some(nb);
                proof {
                    if fresh {
                        let b1 = final(self).board->Some_0@;
                        assert(mask_checked(b1) =~= b0);
                        assert(checked_set(b1) =~= fill@);
                    }
                }
                if safes_after == 0 {
                    Ok(RevealOutcome::Won { revealed, bombs: bombs_n, elapsed })
                } else {
                    Ok(RevealOutcome::Continue { revealed })
                }
            },
        }
    }
}

} // verus!
