//! The universe: a bounded toroidal grid of cells and the operations that
//! construct, mutate and advance it.

use vstd::prelude::*;
use vstd::arithmetic::div_mod::lemma_fundamental_div_mod_converse;
use fixedbitset::FixedBitSet;

use crate::bitset::{bits_as_slice, bits_clear_all, bits_get, bits_of, bits_set, bits_with_capacity};
use crate::rules::{
    dead_grid, live_neighbors, nbr_term, next_grid, seed_alive, set_live, wrap, wrapped_index,
};

verus! {

/// The default number of columns of a new universe.
pub const DEFAULT_WIDTH: u32 = 32;

/// The default number of rows of a new universe.
pub const DEFAULT_HEIGHT: u32 = 32;

/// The mathematical content of a universe: its dimensions and its cells as
/// a row-major sequence, `true` = alive.
#[verifier::ext_equal]
pub ghost struct GridModel {
    pub width: nat,
    pub height: nat,
    pub cells: Seq<bool>,
}

/// `g` with every cell dead and the dimensions kept.
pub open spec fn cleared(g: GridModel) -> GridModel {
    GridModel { width: g.width, height: g.height, cells: dead_grid(g.cells.len()) }
}

/// Clearing is idempotent: clearing an already cleared grid changes
/// nothing, so a second `clear` is equivalent to the first.
pub proof fn lemma_clear_idempotent(g: GridModel)
    ensures
        cleared(cleared(g)) == cleared(g),
{
    assert(cleared(cleared(g)) =~= cleared(g));
}

/// The errors an operation can reject its input with.
#[derive(Clone, Copy, Debug, PartialEq, Eq, Structural)]
pub enum UniverseError {
    /// A dimension of 0 was asked for where the grid needs at least 1.
    InvalidDimension,
    /// A `(row, col)` coordinate lies outside the grid.
    OutOfBounds,
}

/// A bounded 2D grid of binary cells on a torus, advanced one generation at
/// a time under the B3/S23 rule.
pub struct Universe {
    width: u32,
    height: u32,
    cells: FixedBitSet,
}

impl View for Universe {
    type V = GridModel;

    closed spec fn view(&self) -> GridModel {
        GridModel {
            width: self.width as nat,
            height: self.height as nat,
            cells: bits_of(self.cells),
        }
    }
}

impl Universe {
    /// The structural invariant: one bit per cell, row-major, with the whole
    /// grid addressable as a `usize`.
    pub open spec fn wf(&self) -> bool {
        &&& self@.cells.len() == self@.width * self@.height
        &&& self@.width * self@.height <= usize::MAX
        &&& self@.width <= u32::MAX
        &&& self@.height <= u32::MAX
    }

    /// Row-major linear index of an in-range position.
    fn get_index(&self, row: u32, col: u32) -> (idx: usize)
        requires
            self.wf(),
            (row as nat) < self@.height,
            (col as nat) < self@.width,
        ensures
            idx as int == row as int * self@.width as int + col as int,
            (idx as nat) < self@.cells.len(),
    {
        proof {
            assert((row as int) * (self@.width as int) + (col as int)
                < (self@.height as int) * (self@.width as int)) by (nonlinear_arith)
                requires
                    (row as int) < (self@.height as int),
                    (col as int) < (self@.width as int),
            ;
            assert((self@.height as int) * (self@.width as int)
                == (self@.width as int) * (self@.height as int)) by (nonlinear_arith);
        }
        (row as usize) * (self.width as usize) + (col as usize)
    }

    /// The neighbor-count contribution of the cell at offset
    /// `(delta_row, delta_col)` from `(row, col)`, offsets wrapped toroidally.
    fn neighbor_term_at(&self, row: u32, col: u32, delta_row: u32, delta_col: u32) -> (n: u8)
        requires
            self.wf(),
            (row as nat) < self@.height,
            (col as nat) < self@.width,
        ensures
            n as nat == nbr_term(
                self@.cells,
                self@.height,
                self@.width,
                row as nat,
                col as nat,
                delta_row as nat,
                delta_col as nat,
            ),
            n <= 1,
    {
        if delta_row == 0 && delta_col == 0 {
            0
        } else {
            let nr = ((row as u64 + delta_row as u64) % (self.height as u64)) as u32;
            let nc = ((col as u64 + delta_col as u64) % (self.width as u64)) as u32;
            proof {
                assert(nr as nat == wrap(row as nat, delta_row as nat, self@.height));
                assert(nc as nat == wrap(col as nat, delta_col as nat, self@.width));
            }
            let idx = self.get_index(nr, nc);
            if bits_get(&self.cells, idx) {
                1
            } else {
                0
            }
        }
    }

    /// Count the live cells among the eight toroidally adjacent positions of
    /// `(row, col)`, reading only the current generation.
    fn live_neighbor_count(&self, row: u32, col: u32) -> (n: u8)
        requires
            self.wf(),
            (row as nat) < self@.height,
            (col as nat) < self@.width,
        ensures
            n as nat == live_neighbors(self@.cells, self@.height, self@.width, row as nat, col as nat),
            n <= 8,
    {
        let delta_up = self.height - 1;
        let delta_left = self.width - 1;
        let mut n = self.neighbor_term_at(row, col, delta_up, delta_left);
        n = n + self.neighbor_term_at(row, col, delta_up, 0);
        n = n + self.neighbor_term_at(row, col, delta_up, 1);
        n = n + self.neighbor_term_at(row, col, 0, delta_left);
        n = n + self.neighbor_term_at(row, col, 0, 1);
        n = n + self.neighbor_term_at(row, col, 1, delta_left);
        n = n + self.neighbor_term_at(row, col, 1, 0);
        n = n + self.neighbor_term_at(row, col, 1, 1);
        n
    }

    /// Advance the universe by one generation: every cell's next state is the
    /// B3/S23 rule applied to its current state and its live neighbor count,
    /// all computed from a snapshot of the current generation and committed
    /// as a whole.
    pub fn tick(&mut self)
        requires
            old(self).wf(),
        ensures
            final(self).wf(),
            final(self)@.width == old(self)@.width,
            final(self)@.height == old(self)@.height,
            final(self)@.cells == next_grid(
                old(self)@.cells,
                old(self)@.height,
                old(self)@.width,
            ),
    {
        let ghost g = self@.cells;
        let ghost h = self@.height;
        let ghost w = self@.width;
        let size: usize = (self.width as usize) * (self.height as usize);
        let mut next = bits_with_capacity(size);
        let mut row: u32 = 0;
        while row < self.height
            invariant
                *self == *old(self),
                self.wf(),
                g == self@.cells,
                h == self@.height,
                w == self@.width,
                size as nat == g.len(),
                row as nat <= h,
                bits_of(next).len() == g.len(),
                forall|i: int| 0 <= i < (row as nat) * w ==>
                    bits_of(next)[i] == next_grid(g, h, w)[i],
            decreases self.height - row,
        {
            let mut col: u32 = 0;
            while col < self.width
                invariant
                    *self == *old(self),
                    self.wf(),
                    g == self@.cells,
                    h == self@.height,
                    w == self@.width,
                    size as nat == g.len(),
                    (row as nat) < h,
                    col as nat <= w,
                    bits_of(next).len() == g.len(),
                    forall|i: int| 0 <= i < (row as nat) * w + col as nat ==>
                        bits_of(next)[i] == next_grid(g, h, w)[i],
                decreases self.width - col,
            {
                let idx = self.get_index(row, col);
                let alive = bits_get(&self.cells, idx);
                let count = self.live_neighbor_count(row, col);
                let state = if alive {
                    count == 2 || count == 3
                } else {
                    count == 3
                };
                proof {
                    lemma_fundamental_div_mod_converse(
                        idx as int,
                        w as int,
                        row as int,
                        col as int,
                    );
                    assert(state == next_grid(g, h, w)[idx as int]);
                }
                bits_set(&mut next, idx, state);
                col += 1;
            }
            proof {
                assert((row as int + 1) * (w as int) == (row as int) * (w as int) + (w as int))
                    by (nonlinear_arith);
            }
            row += 1;
        }
        proof {
            assert((h as int) * (w as int) == (w as int) * (h as int)) by (nonlinear_arith);
            assert(bits_of(next) =~= next_grid(g, h, w));
        }
        self.cells = next;
    }

    /// Construct the default universe: fixed dimensions, seeded so that cell
    /// `i` starts alive iff `i % 2 == 0 || i % 7 == 0`.
    pub fn new() -> (u: Universe)
        ensures
            u.wf(),
            u@.width == DEFAULT_WIDTH as nat,
            u@.height == DEFAULT_HEIGHT as nat,
            forall|i: int| 0 <= i < u@.cells.len() ==> u@.cells[i] == seed_alive(i as nat),
    {
        let width: u32 = DEFAULT_WIDTH;
        let height: u32 = DEFAULT_HEIGHT;
        let size: usize = (width as usize) * (height as usize);
        let mut cells = bits_with_capacity(size);
        let mut i: usize = 0;
        while i < size
            invariant
                i <= size,
                size == DEFAULT_WIDTH * DEFAULT_HEIGHT,
                bits_of(cells).len() == size as nat,
                forall|j: int| 0 <= j < i ==> bits_of(cells)[j] == seed_alive(j as nat),
            decreases size - i,
        {
            bits_set(&mut cells, i, i % 2 == 0 || i % 7 == 0);
            i += 1;
        }
        Universe { width, height, cells }
    }

    /// The number of columns.
    pub fn width(&self) -> (w: u32)
        ensures
            w as nat == self@.width,
    {
        self.width
    }

    /// The number of rows.
    pub fn height(&self) -> (h: u32)
        ensures
            h as nat == self@.height,
    {
        self.height
    }

    /// The cells, bit-packed into the backing `u32` blocks: cell `i` is bit
    /// `i % 32` of block `i / 32`.
    pub fn get_cells(&self) -> (r: &[u32])
        ensures
            r@.len() == (self@.cells.len() + 31) / 32,
            forall|i: int| 0 <= i < self@.cells.len() ==>
                self@.cells[i] == (((r@[i / 32] >> ((i % 32) as u32)) & 1u32) == 1u32),
    {
        bits_as_slice(&self.cells)
    }

    /// The renderer-facing view of the buffer: the same read-only blocks as
    /// `get_cells`, valid until the next mutating call.
    pub fn cells(&self) -> (r: &[u32])
        ensures
            r@.len() == (self@.cells.len() + 31) / 32,
            forall|i: int| 0 <= i < self@.cells.len() ==>
                self@.cells[i] == (((r@[i / 32] >> ((i % 32) as u32)) & 1u32) == 1u32),
    {
        bits_as_slice(&self.cells)
    }

    /// Set every cell dead, keeping the dimensions.
    pub fn clear(&mut self)
        requires
            old(self).wf(),
        ensures
            final(self).wf(),
            final(self)@ == cleared(old(self)@),
    {
        bits_clear_all(&mut self.cells);
        proof {
            assert(self@.cells =~= dead_grid(old(self)@.cells.len()));
            assert(self@ =~= cleared(old(self)@));
        }
    }

    /// Set one cell's state; the coordinates wrap modulo the dimensions, so
    /// every position is valid on a grid with nonzero dimensions.
    pub fn set_cell(&mut self, row: u32, col: u32, state: bool)
        requires
            old(self).wf(),
            old(self)@.width >= 1,
            old(self)@.height >= 1,
        ensures
            final(self).wf(),
            final(self)@.width == old(self)@.width,
            final(self)@.height == old(self)@.height,
            final(self)@.cells == old(self)@.cells.update(
                wrapped_index(old(self)@.height, old(self)@.width, row as nat, col as nat) as int,
                state,
            ),
    {
        let r = row % self.height;
        let c = col % self.width;
        let idx = self.get_index(r, c);
        bits_set(&mut self.cells, idx, state);
    }

    /// Replace the width. The resize is destructive: every cell of the new
    /// grid is dead, whatever was alive before. A width of 0 is rejected and
    /// the universe is left unchanged.
    pub fn set_width(&mut self, width: u32) -> (r: Result<(), UniverseError>)
        requires
            old(self).wf(),
            (width as nat) * old(self)@.height <= usize::MAX,
        ensures
            final(self).wf(),
            r is Ok <==> width >= 1,
            r is Err ==> final(self)@ == old(self)@
                && r == Err::<(), UniverseError>(UniverseError::InvalidDimension),
            r is Ok ==> final(self)@.width == width as nat
                && final(self)@.height == old(self)@.height
                && final(self)@.cells == dead_grid((width as nat) * old(self)@.height),
    {
        if width == 0 {
            return Err(UniverseError::InvalidDimension);
        }
        self.width = width;
        let size: usize = (width as usize) * (self.height as usize);
        self.cells = bits_with_capacity(size);
        proof {
            assert(self@.cells =~= dead_grid((width as nat) * old(self)@.height));
        }
        Ok(())
    }

    /// Replace the height. The resize is destructive: every cell of the new
    /// grid is dead, whatever was alive before. A height of 0 is rejected and
    /// the universe is left unchanged.
    pub fn set_height(&mut self, height: u32) -> (r: Result<(), UniverseError>)
        requires
            old(self).wf(),
            old(self)@.width * (height as nat) <= usize::MAX,
        ensures
            final(self).wf(),
            r is Ok <==> height >= 1,
            r is Err ==> final(self)@ == old(self)@
                && r == Err::<(), UniverseError>(UniverseError::InvalidDimension),
            r is Ok ==> final(self)@.height == height as nat
                && final(self)@.width == old(self)@.width
                && final(self)@.cells == dead_grid(old(self)@.width * (height as nat)),
    {
        if height == 0 {
            return Err(UniverseError::InvalidDimension);
        }
        self.height = height;
        let size: usize = (self.width as usize) * (height as usize);
        self.cells = bits_with_capacity(size);
        proof {
            assert(self@.cells =~= dead_grid(old(self)@.width * (height as nat)));
        }
        Ok(())
    }

    /// Set alive every cell listed in `pairs` as a `(row, col)` coordinate,
    /// leaving all other cells as they are. A coordinate outside the grid has
    /// the whole call rejected and the universe left unchanged.
    pub fn set_cells(&mut self, pairs: &[(u32, u32)]) -> (r: Result<(), UniverseError>)
        requires
            old(self).wf(),
        ensures
            final(self).wf(),
            final(self)@.width == old(self)@.width,
            final(self)@.height == old(self)@.height,
            r is Ok <==> (forall|k: int| 0 <= k < pairs@.len() ==>
                ((#[trigger] pairs@[k]).0 as nat) < old(self)@.height
                    && (pairs@[k].1 as nat) < old(self)@.width),
            r is Ok ==> final(self)@.cells == set_live(
                old(self)@.cells,
                old(self)@.width,
                pairs@,
            ),
            r is Err ==> final(self)@ == old(self)@
                && r == Err::<(), UniverseError>(UniverseError::OutOfBounds),
    {
        let mut k: usize = 0;
        while k < pairs.len()
            invariant
                *self == *old(self),
                self.wf(),
                k <= pairs@.len(),
                forall|j: int| 0 <= j < k ==> ((#[trigger] pairs@[j]).0 as nat) < self@.height
                    && (pairs@[j].1 as nat) < self@.width,
            decreases pairs@.len() - k,
        {
            let (row, col) = pairs[k];
            if !(row < self.height && col < self.width) {
                return Err(UniverseError::OutOfBounds);
            }
            k += 1;
        }
        let ghost start = self@.cells;
        proof {
            assert(pairs@.skip(0) =~= pairs@);
        }
        let mut k: usize = 0;
        while k < pairs.len()
            invariant
                self.wf(),
                self@.width == old(self)@.width,
                self@.height == old(self)@.height,
                k <= pairs@.len(),
                start == old(self)@.cells,
                forall|j: int| 0 <= j < pairs@.len() ==>
                    ((#[trigger] pairs@[j]).0 as nat) < self@.height
                        && (pairs@[j].1 as nat) < self@.width,
                set_live(self@.cells, self@.width, pairs@.skip(k as int))
                    == set_live(start, self@.width, pairs@),
            decreases pairs@.len() - k,
        {
            let (row, col) = pairs[k];
            let idx = self.get_index(row, col);
            proof {
                assert(pairs@.skip(k as int).drop_first() =~= pairs@.skip(k as int + 1));
                assert(pairs@.skip(k as int)[0] == pairs@[k as int]);
            }
            bits_set(&mut self.cells, idx, true);
            k += 1;
        }
        proof {
            assert(pairs@.skip(pairs@.len() as int) =~= Seq::<(u32, u32)>::empty());
        }
        Ok(())
    }

    /// Overwrite every cell with a caller-supplied state, one independent
    /// draw per cell; the host's random source makes the draws.
    pub fn randomize(&mut self, draws: &[bool])
        requires
            old(self).wf(),
            draws@.len() == old(self)@.cells.len(),
        ensures
            final(self).wf(),
            final(self)@.width == old(self)@.width,
            final(self)@.height == old(self)@.height,
            final(self)@.cells == draws@,
    {
        let size: usize = (self.width as usize) * (self.height as usize);
        let mut i: usize = 0;
        while i < size
            invariant
                self.wf(),
                self@.width == old(self)@.width,
                self@.height == old(self)@.height,
                size as nat == self@.cells.len(),
                draws@.len() == self@.cells.len(),
                i <= size,
                forall|j: int| 0 <= j < i ==> self@.cells[j] == draws@[j],
            decreases size - i,
        {
            bits_set(&mut self.cells, i, draws[i]);
            i += 1;
        }
        proof {
            assert(self@.cells =~= draws@);
        }
    }

    /// Flip one cell between alive and dead; the coordinates wrap modulo the
    /// dimensions, exactly as in `set_cell`.
    pub fn toggle_cell(&mut self, row: u32, col: u32)
        requires
            old(self).wf(),
            old(self)@.width >= 1,
            old(self)@.height >= 1,
        ensures
            final(self).wf(),
            final(self)@.width == old(self)@.width,
            final(self)@.height == old(self)@.height,
            final(self)@.cells == old(self)@.cells.update(
                wrapped_index(old(self)@.height, old(self)@.width, row as nat, col as nat) as int,
                !old(self)@.cells[wrapped_index(
                    old(self)@.height,
                    old(self)@.width,
                    row as nat,
                    col as nat,
                ) as int],
            ),
    {
        let r = row % self.height;
        let c = col % self.width;
        let idx = self.get_index(r, c);
        let cur = bits_get(&self.cells, idx);
        bits_set(&mut self.cells, idx, !cur);
    }
}

} // verus!
