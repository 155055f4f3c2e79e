//! The mathematical model of the automaton: toroidal adjacency, the live
//! neighbor count, and the B3/S23 transition rule, all over a grid modelled
//! as a row-major sequence of booleans (`true` = alive).

use vstd::prelude::*;
use vstd::arithmetic::div_mod::{
    lemma_mod_multiples_vanish,
    lemma_small_mod,
};

verus! {

/// Toroidal wrapping of a position: move `i` forward by `delta` steps on a
/// cycle of length `m`.
pub open spec fn wrap(i: nat, delta: nat, m: nat) -> nat
    recommends
        m > 0,
{
    (i + delta) % m
}

/// Row-major linear index of `(row, col)` after wrapping each coordinate.
pub open spec fn wrapped_index(height: nat, width: nat, row: nat, col: nat) -> nat
    recommends
        height > 0,
        width > 0,
{
    (row % height) * width + (col % width)
}

/// 1 if a cell is alive, 0 if it is dead.
pub open spec fn count_alive(alive: bool) -> nat {
    if alive {
        1
    } else {
        0
    }
}

/// One term of the neighbor count of `(row, col)`: the contribution of the
/// cell at offset `(delta_row, delta_col)`, both taken modulo the grid's
/// dimensions. The `(0, 0)` offset is the cell itself and contributes
/// nothing.
pub open spec fn nbr_term(
    grid: Seq<bool>,
    height: nat,
    width: nat,
    row: nat,
    col: nat,
    delta_row: nat,
    delta_col: nat,
) -> nat
    recommends
        height > 0,
        width > 0,
        grid.len() == height * width,
{
    if delta_row == 0 && delta_col == 0 {
        0
    } else {
        count_alive(grid[(wrap(row, delta_row, height) * width + wrap(col, delta_col, width)) as int])
    }
}

/// The live neighbor count of `(row, col)`: the sum over the offsets
/// `{height - 1, 0, 1} x {width - 1, 0, 1}`, skipping the `(0, 0)` offset.
/// On a grid with both dimensions at least 2 these are the eight distinct
/// toroidally adjacent cells.
pub open spec fn live_neighbors(
    grid: Seq<bool>,
    height: nat,
    width: nat,
    row: nat,
    col: nat,
) -> nat
    recommends
        height > 0,
        width > 0,
        grid.len() == height * width,
{
    nbr_term(grid, height, width, row, col, (height - 1) as nat, (width - 1) as nat)
        + nbr_term(grid, height, width, row, col, (height - 1) as nat, 0)
        + nbr_term(grid, height, width, row, col, (height - 1) as nat, 1)
        + nbr_term(grid, height, width, row, col, 0, (width - 1) as nat)
        + nbr_term(grid, height, width, row, col, 0, 1)
        + nbr_term(grid, height, width, row, col, 1, (width - 1) as nat)
        + nbr_term(grid, height, width, row, col, 1, 0)
        + nbr_term(grid, height, width, row, col, 1, 1)
}

/// The B3/S23 rule: a live cell survives with two or three live neighbors,
/// a dead cell is born with exactly three, and every other cell is dead in
/// the next generation.
pub open spec fn next_cell(alive: bool, neighbors: nat) -> bool {
    if alive {
        2 <= neighbors <= 3
    } else {
        neighbors == 3
    }
}

/// The whole next generation, every cell computed from the same snapshot
/// `grid` of the current one.
pub open spec fn next_grid(grid: Seq<bool>, height: nat, width: nat) -> Seq<bool>
    recommends
        height > 0,
        width > 0,
        grid.len() == height * width,
{
    Seq::new(
        grid.len(),
        |i: int|
            next_cell(
                grid[i],
                live_neighbors(grid, height, width, (i / width as int) as nat, (i % width as int) as nat),
            ),
    )
}

/// The fixed construction seed: cell `i` starts alive iff `i` is divisible
/// by 2 or by 7.
pub open spec fn seed_alive(i: nat) -> bool {
    i % 2 == 0 || i % 7 == 0
}

/// A grid of `n` cells, all dead.
pub open spec fn dead_grid(n: nat) -> Seq<bool> {
    Seq::new(n, |i: int| false)
}

/// The grid after setting alive, in order, every cell listed in `pairs` as
/// a `(row, col)` coordinate.
pub open spec fn set_live(grid: Seq<bool>, width: nat, pairs: Seq<(u32, u32)>) -> Seq<bool>
    decreases pairs.len(),
{
    if pairs.len() == 0 {
        grid
    } else {
        set_live(
            grid.update((pairs[0].0 as int) * (width as int) + (pairs[0].1 as int), true),
            width,
            pairs.drop_first(),
        )
    }
}

/// `set_live` keeps the grid's length.
pub proof fn lemma_set_live_len(grid: Seq<bool>, width: nat, pairs: Seq<(u32, u32)>)
    requires
        forall|k: int| 0 <= k < pairs.len() ==>
            0 <= ((#[trigger] pairs[k]).0 as int) * (width as int) + (pairs[k].1 as int) < grid.len(),
    ensures
        set_live(grid, width, pairs).len() == grid.len(),
    decreases pairs.len(),
{
    if pairs.len() > 0 {
        let grid1 = grid.update((pairs[0].0 as int) * (width as int) + (pairs[0].1 as int), true);
        let rest = pairs.drop_first();
        assert forall|k: int| 0 <= k < rest.len() implies
            0 <= ((#[trigger] rest[k]).0 as int) * (width as int) + (rest[k].1 as int)
                < grid1.len() by {
            assert(rest[k] == pairs[k + 1]);
        }
        lemma_set_live_len(grid1, width, rest);
    }
}

/// `set_live` is purely additive: a cell is alive afterwards iff it was
/// alive before or some listed pair names its position; no cell is killed.
pub proof fn lemma_set_live_pointwise(
    grid: Seq<bool>,
    width: nat,
    pairs: Seq<(u32, u32)>,
    i: int,
)
    requires
        0 <= i < grid.len(),
        forall|k: int| 0 <= k < pairs.len() ==>
            0 <= ((#[trigger] pairs[k]).0 as int) * (width as int) + (pairs[k].1 as int) < grid.len(),
    ensures
        set_live(grid, width, pairs)[i] == (grid[i] || exists|k: int|
            0 <= k < pairs.len()
                && ((#[trigger] pairs[k]).0 as int) * (width as int) + (pairs[k].1 as int) == i),
    decreases pairs.len(),
{
    if pairs.len() > 0 {
        let first = (pairs[0].0 as int) * (width as int) + (pairs[0].1 as int);
        let grid1 = grid.update(first, true);
        let rest = pairs.drop_first();
        assert forall|k: int| 0 <= k < rest.len() implies
            0 <= ((#[trigger] rest[k]).0 as int) * (width as int) + (rest[k].1 as int)
                < grid1.len() by {
            assert(rest[k] == pairs[k + 1]);
        }
        lemma_set_live_pointwise(grid1, width, rest, i);
        if grid1[i] || exists|k: int| 0 <= k < rest.len()
            && ((#[trigger] rest[k]).0 as int) * (width as int) + (rest[k].1 as int) == i {
            if grid1[i] && !grid[i] {
                assert(first == i);
                assert((pairs[0].0 as int) * (width as int) + (pairs[0].1 as int) == i);
            }
            if !grid1[i] {
                let k = choose|k: int| 0 <= k < rest.len()
                    && ((#[trigger] rest[k]).0 as int) * (width as int) + (rest[k].1 as int) == i;
                assert(pairs[k + 1] == rest[k]);
            }
        }
        if exists|k: int| 0 <= k < pairs.len()
            && ((#[trigger] pairs[k]).0 as int) * (width as int) + (pairs[k].1 as int) == i {
            let k = choose|k: int| 0 <= k < pairs.len()
                && ((#[trigger] pairs[k]).0 as int) * (width as int) + (pairs[k].1 as int) == i;
            if k == 0 {
                assert(grid1[i]);
            } else {
                assert(rest[k - 1] == pairs[k]);
            }
        }
    }
}

/// Toroidal adjacency wraps: from any position, the offset `m - 1` reaches
/// the previous position on the cycle (so position 0 reaches `m - 1`), the
/// offset 1 reaches the next one (so `m - 1` reaches 0), and the offset 0
/// stays put.
pub proof fn lemma_wrap_adjacency(i: nat, m: nat)
    requires
        m >= 1,
        i < m,
    ensures
        wrap(i, (m - 1) as nat, m) == if i == 0 { (m - 1) as nat } else { (i - 1) as nat },
        wrap(i, 0, m) == i,
        wrap(i, 1, m) == if i + 1 == m { 0nat } else { (i + 1) as nat },
{
    lemma_small_mod(i, m);
    if i == 0 {
        lemma_small_mod((m - 1) as nat, m);
    } else {
        lemma_mod_multiples_vanish(1, i - 1, m as int);
        lemma_small_mod((i - 1) as nat, m);
    }
    if i + 1 == m {
        lemma_mod_multiples_vanish(1, 0, m as int);
    } else {
        lemma_small_mod((i + 1) as nat, m);
    }
}

/// Every one of the eight neighbor terms — and so every wrapped neighbor of
/// an edge or corner cell — is counted: the live neighbor count is at least
/// the contribution of any single admissible offset.
pub proof fn lemma_neighbor_term_counted(
    grid: Seq<bool>,
    height: nat,
    width: nat,
    row: nat,
    col: nat,
    delta_row: nat,
    delta_col: nat,
)
    requires
        height >= 1,
        width >= 1,
        grid.len() == height * width,
        delta_row == (height - 1) as nat || delta_row == 0 || delta_row == 1,
        delta_col == (width - 1) as nat || delta_col == 0 || delta_col == 1,
    ensures
        live_neighbors(grid, height, width, row, col)
            >= nbr_term(grid, height, width, row, col, delta_row, delta_col),
{
}

/// Neighbor counting wraps across the top edge: a cell in row 0 counts the
/// cells of the bottom row `height - 1` — the one in its own column and the
/// two diagonal ones — among its neighbors.
pub proof fn lemma_top_edge_counts_bottom_row(
    grid: Seq<bool>,
    height: nat,
    width: nat,
    col: nat,
)
    requires
        height >= 2,
        width >= 1,
        col < width,
        grid.len() == height * width,
    ensures
        live_neighbors(grid, height, width, 0, col)
            >= count_alive(grid[((height - 1) * width + col) as int]),
        live_neighbors(grid, height, width, 0, col)
            >= count_alive(grid[((height - 1) * width + wrap(col, (width - 1) as nat, width)) as int]),
        live_neighbors(grid, height, width, 0, col)
            >= count_alive(grid[((height - 1) * width + wrap(col, 1, width)) as int]),
{
    lemma_wrap_adjacency(0, height);
    lemma_small_mod(col, width);
    assert(nbr_term(grid, height, width, 0, col, (height - 1) as nat, 0)
        == count_alive(grid[((height - 1) * width + col) as int]));
}

/// Determinism of the rule: the next generation is a function of the current
/// cells and dimensions alone, so identical grids tick to identical grids.
pub proof fn lemma_tick_deterministic(
    grid1: Seq<bool>,
    height1: nat,
    width1: nat,
    grid2: Seq<bool>,
    height2: nat,
    width2: nat,
)
    requires
        grid1 == grid2,
        height1 == height2,
        width1 == width2,
    ensures
        next_grid(grid1, height1, width1) == next_grid(grid2, height2, width2),
{
}

/// Single-cell operations wrap their coordinates: adding the grid's height
/// to the row, or its width to the column, reaches the same cell.
pub proof fn lemma_wrapped_index_periodic(height: nat, width: nat, row: nat, col: nat)
    requires
        height >= 1,
        width >= 1,
    ensures
        wrapped_index(height, width, row + height, col) == wrapped_index(height, width, row, col),
        wrapped_index(height, width, row, col + width) == wrapped_index(height, width, row, col),
{
    lemma_mod_multiples_vanish(1, row as int, height as int);
    lemma_mod_multiples_vanish(1, col as int, width as int);
}

} // verus!
