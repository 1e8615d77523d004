use vstd::prelude::*;

verus! {

/// Side length of a minesweeper board.
pub const SIDE: usize = 5;

/// Number of cells of a minesweeper board.
pub const CELLS: usize = 25;

/// Row of a cell index on the 5 x 5 grid.
pub open spec fn row_of(i: int) -> int {
    i / 5
}

/// Column of a cell index on the 5 x 5 grid.
pub open spec fn col_of(i: int) -> int {
    i % 5
}

/// Moore neighborhood: `j` is one of the up-to-8 cells horizontally,
/// vertically, or diagonally adjacent to `i` on the 5 x 5 grid.
pub open spec fn is_adjacent(i: int, j: int) -> bool {
    &&& 0 <= i < 25
    &&& 0 <= j < 25
    &&& i != j
    &&& -1 <= row_of(i) - row_of(j) <= 1
    &&& -1 <= col_of(i) - col_of(j) <= 1
}

/// How many coordinates of `0..5` lie within distance 1 of coordinate `c`.
pub open spec fn coord_span(c: int) -> int {
    if c == 0 || c == 4 {
        2
    } else {
        3
    }
}

/// Number of neighbors of cell `i`: the cells of the clipped 3 x 3 box
/// around `i`, minus `i` itself.
pub open spec fn neighbor_count(i: int) -> int {
    coord_span(row_of(i)) * coord_span(col_of(i)) - 1
}

/// A cell on one of the four corners of the grid.
pub open spec fn is_corner(i: int) -> bool {
    (row_of(i) == 0 || row_of(i) == 4) && (col_of(i) == 0 || col_of(i) == 4)
}

/// A border cell that is not a corner.
pub open spec fn is_edge(i: int) -> bool {
    !is_corner(i) && (row_of(i) == 0 || row_of(i) == 4 || col_of(i) == 0 || col_of(i) == 4)
}

/// A cell not on the border: all 8 neighbors exist.
pub open spec fn is_interior(i: int) -> bool {
    1 <= row_of(i) <= 3 && 1 <= col_of(i) <= 3
}

/// The valid grid indices in the Moore neighborhood of `index`, clipped at
/// edges and corners, in increasing order.
pub fn get_adjacent_indexes(index: usize) -> (r: Vec<usize>)
    requires
        index < 25,
    ensures
        forall|k: int| 0 <= k < r@.len() ==> is_adjacent(index as int, #[trigger] r@[k] as int),
        forall|j: usize| is_adjacent(index as int, j as int) ==> #[trigger] r@.contains(j),
        forall|k1: int, k2: int| 0 <= k1 < k2 < r@.len() ==> r@[k1] < r@[k2],
        r@.len() == neighbor_count(index as int),
        is_corner(index as int) ==> r@.len() == 3,
        is_edge(index as int) ==> r@.len() == 5,
        is_interior(index as int) ==> r@.len() == 8,
        r@.len() <= 8,
{
    let iy = index / 5;
    let ix = index % 5;
    let y0 = if iy == 0 { 0 } else { iy - 1 };
    let y1 = if iy == 4 { 4 } else { iy + 1 };
    let x0 = if ix == 0 { 0 } else { ix - 1 };
    let x1 = if ix == 4 { 4 } else { ix + 1 };
    let w: usize = x1 + 1 - x0;
    let mut cells: Vec<usize> = Vec::new();
    let mut y = y0;
    while y <= y1
        invariant
            index < 25,
            iy == index / 5,
            ix == index % 5,
            y0 == (if iy == 0 { 0int } else { iy - 1 }),
            y1 == (if iy == 4 { 4int } else { iy + 1 }),
            x0 == (if ix == 0 { 0int } else { ix - 1 }),
            x1 == (if ix == 4 { 4int } else { ix + 1 }),
            w == x1 + 1 - x0,
            y0 <= y <= y1 + 1,
            cells@.len() == (y - y0) * w - (if y > iy { 1int } else { 0int }),
            forall|k: int|
                0 <= k < cells@.len() ==> is_adjacent(index as int, #[trigger] cells@[k] as int),
            forall|k: int| 0 <= k < cells@.len() ==> #[trigger] cells@[k] < y * 5,
            forall|k1: int, k2: int| 0 <= k1 < k2 < cells@.len() ==> cells@[k1] < cells@[k2],
            forall|j: usize|
                is_adjacent(index as int, j as int) && row_of(j as int) < y
                    ==> #[trigger] cells@.contains(j),
        decreases y1 + 1 - y,
    {
        let mut x = x0;
        while x <= x1
            invariant
                index < 25,
                iy == index / 5,
                ix == index % 5,
                y0 == (if iy == 0 { 0int } else { iy - 1 }),
                y1 == (if iy == 4 { 4int } else { iy + 1 }),
                x0 == (if ix == 0 { 0int } else { ix - 1 }),
                x1 == (if ix == 4 { 4int } else { ix + 1 }),
                w == x1 + 1 - x0,
                y0 <= y <= y1,
                x0 <= x <= x1 + 1,
                cells@.len() == (y - y0) * w - (if y > iy { 1int } else { 0int }) + (x - x0) - (
                if y == iy && x > ix {
                    1int
                } else {
                    0int
                }),
                forall|k: int|
                    0 <= k < cells@.len() ==> is_adjacent(index as int, #[trigger] cells@[k] as int),
                forall|k: int| 0 <= k < cells@.len() ==> #[trigger] cells@[k] < y * 5 + x,
                forall|k1: int, k2: int| 0 <= k1 < k2 < cells@.len() ==> cells@[k1] < cells@[k2],
                forall|j: usize|
                    is_adjacent(index as int, j as int) && row_of(j as int) < y
                        ==> #[trigger] cells@.contains(j),
                forall|j: usize|
                    is_adjacent(index as int, j as int) && row_of(j as int) == y && col_of(j as int)
                        < x ==> #[trigger] cells@.contains(j),
            decreases x1 + 1 - x,
        {
            let ghost prev = cells@;
            if !(y == iy && x == ix) {
                let j = y * 5 + x;
                proof {
                    assert(j as int == 5 * (y as int) + (x as int));
                    assert(row_of(j as int) == y as int);
                    assert(col_of(j as int) == x as int);
                    assert(is_adjacent(index as int, j as int));
                }
                cells.push(j);
            }
            proof {
                assert(index as int == 5 * (iy as int) + (ix as int));
                assert forall|j2: usize|
                    is_adjacent(index as int, j2 as int) && row_of(j2 as int) < y implies cells@
                    .contains(j2) by {
                    assert(prev.contains(j2));
                    let k = choose|k: int| 0 <= k < prev.len() && prev[k] == j2;
                    assert(cells@[k] == j2);
                }
                assert forall|j2: usize|
                    is_adjacent(index as int, j2 as int) && row_of(j2 as int) == y && col_of(
                        j2 as int,
                    ) < x + 1 implies cells@.contains(j2) by {
                    if col_of(j2 as int) < x {
                        assert(prev.contains(j2));
                        let k = choose|k: int| 0 <= k < prev.len() && prev[k] == j2;
                        assert(cells@[k] == j2);
                    } else {
                        assert(j2 as int == 5 * (j2 as int / 5) + (j2 as int % 5));
                        assert(j2 as int == 5 * (y as int) + (x as int));
                        assert(!(y == iy && x == ix));
                        assert(cells@[cells@.len() - 1] == j2);
                    }
                }
            }
            x += 1;
        }
        proof {
            assert(cells@.len() == (y + 1 - y0) * w - (if y + 1 > iy { 1int } else { 0int })) by {
                assert((y - y0) * w + w == (y + 1 - y0) * w) by (nonlinear_arith);
            }
            assert(forall|j: usize|
                is_adjacent(index as int, j as int) && row_of(j as int) == y ==> col_of(j as int)
                    <= x1);
        }
        y += 1;
    }
    proof {
        assert(forall|j: usize|
            is_adjacent(index as int, j as int) ==> row_of(j as int) <= y1);
        assert(y1 + 1 - y0 == coord_span(iy as int));
        assert(x1 + 1 - x0 == coord_span(ix as int));
        assert(cells@.len() == coord_span(row_of(index as int)) * coord_span(col_of(index as int))
            - 1);
    }
    cells
}

} // verus!
