use vstd::prelude::*;
use vstd::arithmetic::div_mod::lemma_fundamental_div_mod_converse;
use vstd::arithmetic::mul::lemma_mul_upper_bound;
use vstd::string::StringExecFns;

use crate::cells::Cells;
use crate::model::{
    cell_at, grid_wf, initial_universe, lemma_index_in_grid, lemma_live_neighbors_bounds,
    live_neighbors, neighbor_sum, next_generation, rendered, row_glyphs, seed_cell, stepped,
    UniverseView, DEFAULT_SIZE,
};

verus! {

/// A fixed-size toroidal grid of cells.
pub struct Universe {
    width: u32,
    height: u32,
    cells: Vec<Cells>,
}

impl View for Universe {
    type V = UniverseView;

    closed spec fn view(&self) -> UniverseView {
        UniverseView { width: self.width as nat, height: self.height as nat, cells: self.cells@ }
    }
}

impl Universe {
    /// The invariant that every operation keeps: see `grid_wf`.
    pub open spec fn wf(&self) -> bool {
        grid_wf(self@)
    }

    /// The first universe: 64 by 64 cells, alive where the index is even
    /// or a multiple of seven.
    pub fn new() -> (r: Universe)
        ensures
            r.wf(),
            r@ == initial_universe(),
    {
        let width: u32 = DEFAULT_SIZE;
        let height: u32 = DEFAULT_SIZE;
        let mut cells: Vec<Cells> = Vec::new();
        let mut i: u32 = 0;
        while i < width * height
            invariant
                width == DEFAULT_SIZE,
                height == DEFAULT_SIZE,
                i <= width * height,
                cells@ =~= Seq::new(i as nat, |j: int| seed_cell(j)),
            decreases width * height - i,
        {
            let cell = if i % 2 == 0 || i % 7 == 0 {
                Cells::ALIVE
            } else {
                Cells::DEAD
            };
            cells.push(cell);
            i = i + 1;
        }
        Universe { width, height, cells }
    }

    /// The grid as text: one line per row, one glyph per cell, each line
    /// ended by a newline.
    pub fn render(&self) -> (r: String)
        requires
            self.wf(),
        ensures
            r@ == rendered(self@.cells, self@.width as int, self@.height),
    {
        let mut text = String::new();
        let mut row: u32 = 0;
        while row < self.height
            invariant
                self.wf(),
                row <= self@.height,
                text@ == rendered(self@.cells, self@.width as int, row as nat),
            decreases self@.height - row,
        {
            let mut col: u32 = 0;
            while col < self.width
                invariant
                    self.wf(),
                    row < self@.height,
                    col <= self@.width,
                    text@ == rendered(self@.cells, self@.width as int, row as nat) + row_glyphs(
                        self@.cells,
                        self@.width as int,
                        row as int,
                        col as nat,
                    ),
                decreases self@.width - col,
            {
                let index = self.get_index(row, col);
                let symbol = if self.cells[index] == Cells::DEAD {
                    "\u{25FB}"
                } else {
                    "\u{25FC}"
                };
                proof {
                    reveal_strlit("\u{25FB}");
                    reveal_strlit("\u{25FC}");
                }
                text.append(symbol);
                assert(text@ =~= rendered(self@.cells, self@.width as int, row as nat) + row_glyphs(
                    self@.cells,
                    self@.width as int,
                    row as int,
                    (col + 1) as nat,
                ));
                col = col + 1;
            }
            proof {
                reveal_strlit("\n");
            }
            text.append("\n");
            assert(text@ =~= rendered(self@.cells, self@.width as int, (row + 1) as nat));
            row = row + 1;
        }
        text
    }

    /// A universe of the given size holding `cells` in row-major order;
    /// `None` unless both sides are positive and there is exactly one cell
    /// per grid position.
    pub fn from_cells(width: u32, height: u32, cells: Vec<Cells>) -> (r: Option<Universe>)
        ensures
            r is Some <==> (width > 0 && height > 0 && cells@.len() == width * height),
            r matches Some(u) ==> u.wf() && u@ == (UniverseView {
                width: width as nat,
                height: height as nat,
                cells: cells@,
            }),
    {
        proof {
            lemma_mul_upper_bound(width as int, u32::MAX as int, height as int, u32::MAX as int);
        }
        if width == 0 || height == 0 || cells.len() as u64 != width as u64 * height as u64 {
            None
        } else {
            Some(Universe { width, height, cells })
        }
    }

    /// The number of columns.
    pub fn width(&self) -> (r: u32)
        ensures
            r == self@.width,
    {
        self.width
    }

    /// The number of rows.
    pub fn height(&self) -> (r: u32)
        ensures
            r == self@.height,
    {
        self.height
    }

    /// The cell at `(row, column)`.
    pub fn cell(&self, row: u32, column: u32) -> (r: Cells)
        requires
            self.wf(),
            row < self@.height,
            column < self@.width,
        ensures
            r == cell_at(self@.cells, self@.width as int, row as int, column as int),
    {
        let index = self.get_index(row, column);
        self.cells[index]
    }

    /// The linear index of `(row, column)` in the cell buffer.
    pub fn get_index(&self, row: u32, column: u32) -> (r: usize)
        requires
            self.wf(),
            row < self@.height,
            column < self@.width,
        ensures
            r == row * self@.width + column,
            r < self@.cells.len(),
    {
        // the buffer's length bounds every index below it
        let _ = self.cells.len();
        proof {
            lemma_index_in_grid(
                row as int,
                column as int,
                self.width as int,
                self.height as int,
            );
        }
        row as usize * self.width as usize + column as usize
    }
    /// How many of the eight cells around `(row, column)` are alive; the
    /// grid wraps around at its edges.
    pub fn live_neighbor_count(&self, row: u32, column: u32) -> (r: u8)
        requires
            self.wf(),
            row < self@.height,
            column < self@.width,
        ensures
            r == live_neighbors(
                self@.cells,
                self@.width as int,
                self@.height as int,
                row as int,
                column as int,
            ),
            r <= 8,
    {
        let row_deltas: [u32; 3] = [self.height - 1, 0, 1];
        let col_deltas: [u32; 3] = [self.width - 1, 0, 1];
        let mut count: u8 = 0;
        let mut k: usize = 0;
        while k < 9
            invariant
                self.wf(),
                row < self@.height,
                column < self@.width,
                k <= 9,
                row_deltas@ == seq![(self.height - 1) as u32, 0u32, 1u32],
                col_deltas@ == seq![(self.width - 1) as u32, 0u32, 1u32],
                count <= k,
                count == neighbor_sum(
                    self@.cells,
                    self@.width as int,
                    self@.height as int,
                    row as int,
                    column as int,
                    k as nat,
                ),
            decreases 9 - k,
        {
            let delta_row = row_deltas[k / 3];
            let delta_col = col_deltas[k % 3];
            if delta_row != 0 || delta_col != 0 {
                let neighbor_row = ((row as u64 + delta_row as u64) % self.height as u64) as u32;
                let neighbor_col = ((column as u64 + delta_col as u64) % self.width as u64) as u32;
                let index = self.get_index(neighbor_row, neighbor_col);
                count = count + self.cells[index].value();
            }
            k = k + 1;
        }
        proof {
            lemma_live_neighbors_bounds(
                self@.cells,
                self@.width as int,
                self@.height as int,
                row as int,
                column as int,
            );
        }
        count
    }
    /// Advances the universe by one generation. The next buffer is built in
    /// full from the current one before it replaces it.
    pub fn tick(&mut self)
        requires
            old(self).wf(),
        ensures
            final(self).wf(),
            final(self)@ == stepped(old(self)@),
    {
        let ghost target = next_generation(self@.cells, self@.width as int, self@.height as int);
        let mut next: Vec<Cells> = Vec::new();
        let mut row: u32 = 0;
        while row < self.height
            invariant
                self.wf(),
                *self == *old(self),
                target == next_generation(self@.cells, self@.width as int, self@.height as int),
                row <= self@.height,
                next@.len() == row * self@.width,
                forall|i: int| 0 <= i < next@.len() ==> next@[i] == target[i],
            decreases self@.height - row,
        {
            let mut col: u32 = 0;
            while col < self.width
                invariant
                    self.wf(),
                    *self == *old(self),
                    target == next_generation(self@.cells, self@.width as int, self@.height as int),
                    row < self@.height,
                    col <= self@.width,
                    next@.len() == row * self@.width + col,
                    forall|i: int| 0 <= i < next@.len() ==> next@[i] == target[i],
                decreases self@.width - col,
            {
                let index = self.get_index(row, col);
                let cell = self.cells[index];
                let live_neighbors = self.live_neighbor_count(row, col);

                let next_cell = match (cell, live_neighbors) {
                    // a live cell with fewer than two live neighbours dies
                    (Cells::ALIVE, x) if x < 2 => Cells::DEAD,
                    // a live cell with two or three live neighbours lives on
                    (Cells::ALIVE, 2) | (Cells::ALIVE, 3) => Cells::ALIVE,
                    // a live cell with more than three live neighbours dies
                    (Cells::ALIVE, x) if x > 3 => Cells::DEAD,
                    // a dead cell with exactly three live neighbours comes alive
                    (Cells::DEAD, 3) => Cells::ALIVE,
                    // every other cell keeps its state
                    (otherwise, _) => otherwise,
                };
                proof {
                    lemma_fundamental_div_mod_converse(
                        index as int,
                        self.width as int,
                        row as int,
                        col as int,
                    );
                }
                next.push(next_cell);
                col = col + 1;
            }
            assert(row * self@.width + self@.width == (row + 1) * self@.width) by (nonlinear_arith);
            row = row + 1;
        }
        assert(self@.height * self@.width == self@.width * self@.height) by (nonlinear_arith);
        assert(next@ =~= target);
        self.cells = next;
    }
}

} // verus!
