use vstd::prelude::*;

use crate::cells::{cell_value, Cells};

verus! {

/// Side length of the grid that `Universe::new` builds.
pub const DEFAULT_SIZE: u32 = 64;

/// The mathematical value of a universe: its dimensions and its cells in
/// row-major order.
pub struct UniverseView {
    pub width: nat,
    pub height: nat,
    pub cells: Seq<Cells>,
}

/// A universe is well formed when both sides are positive and the buffer
/// holds exactly one cell per grid position.
pub open spec fn grid_wf(g: UniverseView) -> bool {
    &&& g.width > 0
    &&& g.height > 0
    &&& g.cells.len() == g.width * g.height
}

/// The cell at `(row, column)`.
pub open spec fn cell_at(cells: Seq<Cells>, width: int, row: int, column: int) -> Cells {
    cells[row * width + column]
}

/// The `k`-th offset along a side of length `dim`: one step back (written
/// `dim - 1`, so that it wraps under `%`), none, one step forward.
pub open spec fn offset(dim: int, k: int) -> int {
    if k == 0 {
        dim - 1
    } else if k == 1 {
        0
    } else {
        1
    }
}

/// What the neighbour at offsets `(offset(height, i), offset(width, j))`
/// contributes to the count of `(row, column)`; the zero offset is the cell
/// itself and contributes nothing.
pub open spec fn neighbor_term(
    cells: Seq<Cells>,
    width: int,
    height: int,
    row: int,
    column: int,
    i: int,
    j: int,
) -> int {
    let delta_row = offset(height, i);
    let delta_col = offset(width, j);
    if delta_row == 0 && delta_col == 0 {
        0
    } else {
        cell_value(
            cell_at(cells, width, (row + delta_row) % height, (column + delta_col) % width),
        )
    }
}

/// The sum of the first `k` of the nine terms, taken row offset first.
pub open spec fn neighbor_sum(
    cells: Seq<Cells>,
    width: int,
    height: int,
    row: int,
    column: int,
    k: nat,
) -> int
    decreases k,
{
    if k == 0 {
        0
    } else {
        neighbor_sum(cells, width, height, row, column, (k - 1) as nat) + neighbor_term(
            cells,
            width,
            height,
            row,
            column,
            (k - 1) / 3,
            (k - 1) % 3,
        )
    }
}

/// The number of live cells among the eight around `(row, column)`, with
/// both coordinates wrapping around the grid's edges.
pub open spec fn live_neighbors(
    cells: Seq<Cells>,
    width: int,
    height: int,
    row: int,
    column: int,
) -> int {
    neighbor_sum(cells, width, height, row, column, 9)
}

/// The rule of the game: what a cell in state `c` with `n` live neighbours
/// becomes.
pub open spec fn next_state(c: Cells, n: int) -> Cells {
    match c {
        Cells::ALIVE => if 2 <= n <= 3 {
            Cells::ALIVE
        } else {
            Cells::DEAD
        },
        Cells::DEAD => if n == 3 {
            Cells::ALIVE
        } else {
            Cells::DEAD
        },
    }
}

/// The next generation: every cell updated at once from the current one.
pub open spec fn next_generation(cells: Seq<Cells>, width: int, height: int) -> Seq<Cells> {
    Seq::new(
        cells.len(),
        |i: int| next_state(cells[i], live_neighbors(cells, width, height, i / width, i % width)),
    )
}

/// The universe one generation later.
pub open spec fn stepped(g: UniverseView) -> UniverseView {
    UniverseView {
        width: g.width,
        height: g.height,
        cells: next_generation(g.cells, g.width as int, g.height as int),
    }
}

/// The universe `n` generations later.
pub open spec fn generation(g: UniverseView, n: nat) -> UniverseView
    decreases n,
{
    if n == 0 {
        g
    } else {
        stepped(generation(g, (n - 1) as nat))
    }
}

/// The cell of the first grid: alive where the index is even or a multiple
/// of seven.
pub open spec fn seed_cell(i: int) -> Cells {
    if i % 2 == 0 || i % 7 == 0 {
        Cells::ALIVE
    } else {
        Cells::DEAD
    }
}

/// The universe that `Universe::new` builds.
pub open spec fn initial_universe() -> UniverseView {
    UniverseView {
        width: DEFAULT_SIZE as nat,
        height: DEFAULT_SIZE as nat,
        cells: Seq::new((DEFAULT_SIZE * DEFAULT_SIZE) as nat, |i: int| seed_cell(i)),
    }
}

/// The glyph that shows a cell.
pub open spec fn glyph(c: Cells) -> char {
    match c {
        Cells::DEAD => '\u{25FB}',
        Cells::ALIVE => '\u{25FC}',
    }
}

/// The first `n` cells of row `row`, one glyph each.
pub open spec fn row_glyphs(cells: Seq<Cells>, width: int, row: int, n: nat) -> Seq<char> {
    Seq::new(n, |column: int| glyph(cell_at(cells, width, row, column)))
}

/// The first `rows` rows of the grid as text, each row's glyphs followed by
/// a newline.
pub open spec fn rendered(cells: Seq<Cells>, width: int, rows: nat) -> Seq<char>
    decreases rows,
{
    if rows == 0 {
        Seq::empty()
    } else {
        rendered(cells, width, (rows - 1) as nat) + row_glyphs(
            cells,
            width,
            rows - 1,
            width as nat,
        ).push('\n')
    }
}

/// Every neighbour count lies in `[0, 8]`.
pub proof fn lemma_live_neighbors_bounds(
    cells: Seq<Cells>,
    width: int,
    height: int,
    row: int,
    column: int,
)
    ensures
        0 <= live_neighbors(cells, width, height, row, column) <= 8,
{
    lemma_neighbor_sum_bounds(cells, width, height, row, column, 9);
}

proof fn lemma_neighbor_sum_bounds(
    cells: Seq<Cells>,
    width: int,
    height: int,
    row: int,
    column: int,
    k: nat,
)
    requires
        k <= 9,
    ensures
        0 <= neighbor_sum(cells, width, height, row, column, k),
        neighbor_sum(cells, width, height, row, column, k) <= if k <= 4 {
            k as int
        } else {
            k - 1
        },
    decreases k,
{
    if k > 0 {
        lemma_neighbor_sum_bounds(cells, width, height, row, column, (k - 1) as nat);
    }
}

pub(crate) proof fn lemma_index_in_grid(row: int, column: int, width: int, height: int)
    requires
        0 <= row < height,
        0 <= column < width,
    ensures
        0 <= row * width,
        row * width + column < width * height,
{
    assert(0 <= row * width) by (nonlinear_arith)
        requires
            0 <= row,
            0 <= width,
    ;
    assert(row * width + width <= width * height) by (nonlinear_arith)
        requires
            row + 1 <= height,
            0 <= width,
    ;
}

} // verus!
