use vstd::prelude::*;
use vstd::arithmetic::div_mod::{lemma_fundamental_div_mod_converse, lemma_small_mod};

use crate::cells::{cell_value, Cells};
use crate::model::{
    cell_at, generation, glyph, grid_wf, initial_universe, lemma_index_in_grid, live_neighbors,
    neighbor_sum, next_generation, next_state, rendered, row_glyphs, stepped, UniverseView,
};
use crate::universe::Universe;

verus! {

/// Each cell of the next generation is the rule applied to that cell and its
/// own neighbour count in the current one.
pub proof fn lemma_next_cell(g: UniverseView, row: int, column: int)
    requires
        grid_wf(g),
        0 <= row < g.height,
        0 <= column < g.width,
    ensures
        cell_at(stepped(g).cells, g.width as int, row, column) == next_state(
            cell_at(g.cells, g.width as int, row, column),
            live_neighbors(g.cells, g.width as int, g.height as int, row, column),
        ),
{
    let w = g.width as int;
    lemma_index_in_grid(row, column, w, g.height as int);
    lemma_fundamental_div_mod_converse(row * w + column, w, row, column);
}

/// A live cell with fewer than two live neighbours is dead one generation
/// later.
pub proof fn lemma_underpopulation(g: UniverseView, row: int, column: int)
    requires
        grid_wf(g),
        0 <= row < g.height,
        0 <= column < g.width,
        cell_at(g.cells, g.width as int, row, column) == Cells::ALIVE,
        live_neighbors(g.cells, g.width as int, g.height as int, row, column) < 2,
    ensures
        cell_at(stepped(g).cells, g.width as int, row, column) == Cells::DEAD,
{
    lemma_next_cell(g, row, column);
}

/// A live cell with two or three live neighbours is still alive one
/// generation later.
pub proof fn lemma_survival(g: UniverseView, row: int, column: int)
    requires
        grid_wf(g),
        0 <= row < g.height,
        0 <= column < g.width,
        cell_at(g.cells, g.width as int, row, column) == Cells::ALIVE,
        2 <= live_neighbors(g.cells, g.width as int, g.height as int, row, column) <= 3,
    ensures
        cell_at(stepped(g).cells, g.width as int, row, column) == Cells::ALIVE,
{
    lemma_next_cell(g, row, column);
}

/// A dead cell comes alive one generation later exactly when it has three
/// live neighbours; with two or four it stays dead.
pub proof fn lemma_reproduction(g: UniverseView, row: int, column: int)
    requires
        grid_wf(g),
        0 <= row < g.height,
        0 <= column < g.width,
        cell_at(g.cells, g.width as int, row, column) == Cells::DEAD,
    ensures
        cell_at(stepped(g).cells, g.width as int, row, column) == Cells::ALIVE <==> live_neighbors(
            g.cells,
            g.width as int,
            g.height as int,
            row,
            column,
        ) == 3,
{
    lemma_next_cell(g, row, column);
}

/// The neighbours of the corner `(0, 0)` wrap around both edges: they are
/// the cells at rows `height - 1`, `0`, `1` and columns `width - 1`, `0`,
/// `1`, the corner itself left out. Both sides must be at least two long
/// for these to be eight positions other than the corner.
pub proof fn lemma_corner_neighbors(g: UniverseView)
    requires
        grid_wf(g),
        g.width >= 2,
        g.height >= 2,
    ensures
        ({
            let w = g.width as int;
            let h = g.height as int;
            let v = |r: int, c: int| cell_value(cell_at(g.cells, w, r, c));
            live_neighbors(g.cells, w, h, 0, 0) == v(h - 1, w - 1) + v(h - 1, 0) + v(h - 1, 1) + v(
                0,
                w - 1,
            ) + v(0, 1) + v(1, w - 1) + v(1, 0) + v(1, 1)
        }),
{
    let w = g.width as int;
    let h = g.height as int;
    lemma_small_mod((h - 1) as nat, h as nat);
    lemma_small_mod(0, h as nat);
    lemma_small_mod(1, h as nat);
    lemma_small_mod((w - 1) as nat, w as nat);
    lemma_small_mod(0, w as nat);
    lemma_small_mod(1, w as nat);
    reveal_with_fuel(neighbor_sum, 10);
}

/// Building the first universe twice gives the same universe: the seed
/// does not depend on anything but the index.
pub proof fn lemma_new_deterministic(a: Universe, b: Universe)
    requires
        a@ == initial_universe(),
        b@ == initial_universe(),
    ensures
        a@ == b@,
        a@.cells == b@.cells,
{
}

/// Two ticks from a universe lead to its second generation, computed from
/// the first alone by the rule.
pub proof fn lemma_two_ticks(u0: UniverseView, u1: UniverseView, u2: UniverseView)
    requires
        grid_wf(u0),
        u1 == stepped(u0),
        u2 == stepped(u1),
    ensures
        u2 == generation(u0, 2),
        u2.cells == next_generation(
            next_generation(u0.cells, u0.width as int, u0.height as int),
            u0.width as int,
            u0.height as int,
        ),
{
    reveal_with_fuel(generation, 3);
}

proof fn lemma_line_position(r: int, c: int, k: int, width: int)
    requires
        0 <= r <= k,
        0 <= c <= width,
    ensures
        0 <= r * (width + 1) + c < (k + 1) * (width + 1),
        r < k ==> r * (width + 1) + c < k * (width + 1),
{
    assert(0 <= r * (width + 1) + c < (k + 1) * (width + 1)) by (nonlinear_arith)
        requires
            0 <= r <= k,
            0 <= c <= width,
    ;
    assert(r < k ==> r * (width + 1) + c < k * (width + 1)) by (nonlinear_arith)
        requires
            0 <= r,
            0 <= c <= width,
    ;
}

/// The rendering of a grid has `height` lines of `width` glyphs, each line
/// ended by a newline: the character at column `c` of line `r` shows the
/// cell `(r, c)` and is never a newline, and each line's last character is.
pub proof fn lemma_render_layout(cells: Seq<Cells>, width: int, height: nat)
    requires
        width > 0,
    ensures
        rendered(cells, width, height).len() == height * (width + 1),
        forall|r: int, c: int|
            0 <= r < height && 0 <= c < width ==> {
                &&& #[trigger] rendered(cells, width, height)[r * (width + 1) + c] == glyph(
                    cell_at(cells, width, r, c),
                )
                &&& rendered(cells, width, height)[r * (width + 1) + c] != '\n'
            },
        forall|r: int|
            0 <= r < height ==> #[trigger] rendered(cells, width, height)[r * (width + 1) + width]
                == '\n',
    decreases height,
{
    if height > 0 {
        let k = (height - 1) as nat;
        lemma_render_layout(cells, width, k);
        let prefix = rendered(cells, width, k);
        let line = row_glyphs(cells, width, k as int, width as nat).push('\n');
        assert(rendered(cells, width, height) == prefix + line);
        assert(k * (width + 1) + (width + 1) == height * (width + 1)) by (nonlinear_arith)
            requires
                k + 1 == height,
        ;
        assert forall|r: int, c: int| 0 <= r < height && 0 <= c < width implies {
            &&& #[trigger] rendered(cells, width, height)[r * (width + 1) + c] == glyph(
                cell_at(cells, width, r, c),
            )
            &&& rendered(cells, width, height)[r * (width + 1) + c] != '\n'
        } by {
            lemma_line_position(r, c, k as int, width);
            if r < k {
                assert(prefix[r * (width + 1) + c] == glyph(cell_at(cells, width, r, c)));
            }
        }
        assert forall|r: int| 0 <= r < height implies #[trigger] rendered(cells, width, height)[r
            * (width + 1) + width] == '\n' by {
            lemma_line_position(r, width, k as int, width);
            if r < k {
                assert(prefix[r * (width + 1) + width] == '\n');
            }
        }
    }
}

} // verus!
