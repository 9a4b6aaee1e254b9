//! The mathematical model of a board: a rectangle of cell states, read and
//! written through wraparound coordinates.

use vstd::prelude::*;
use crate::cell::{rule, CellState};
use crate::torus::{lemma_wrap_in_bounds, wrap};

verus! {

/// Rows of cells, top to bottom; each row runs left to right.
pub type Grid = Seq<Seq<CellState>>;

/// Number of rows.
pub open spec fn height(g: Grid) -> int {
    g.len() as int
}

/// Number of columns.
pub open spec fn width(g: Grid) -> int {
    g[0].len() as int
}

/// A grid has at least one cell, and all its rows have the same length.
pub open spec fn rectangular(g: Grid) -> bool {
    &&& g.len() > 0
    &&& g[0].len() > 0
    &&& forall|i: int| 0 <= i < g.len() ==> (#[trigger] g[i]).len() == g[0].len()
}

/// The grid of the given size in which every cell is dead.
pub open spec fn dead_grid(width: int, height: int) -> Grid {
    Seq::new(height as nat, |y: int| Seq::new(width as nat, |x: int| CellState::Dead))
}

/// The state of the cell that `(x, y)` resolves to. Defined for all integers.
pub open spec fn cell(g: Grid, x: int, y: int) -> CellState {
    g[wrap(y, height(g))][wrap(x, width(g))]
}

/// The grid that differs from `g` in the cell that `(x, y)` resolves to, which
/// has state `s`.
pub open spec fn with_cell(g: Grid, x: int, y: int, s: CellState) -> Grid {
    let row = wrap(y, height(g));
    let col = wrap(x, width(g));
    g.update(row, g[row].update(col, s))
}

/// Whether `(x1, y1)` and `(x2, y2)` resolve to the same cell of `g`.
pub open spec fn same_cell(g: Grid, x1: int, y1: int, x2: int, y2: int) -> bool {
    wrap(x1, width(g)) == wrap(x2, width(g)) && wrap(y1, height(g)) == wrap(y2, height(g))
}

/// One if the cell at `(x, y)` is alive, zero if it is dead.
pub open spec fn live(g: Grid, x: int, y: int) -> int {
    if cell(g, x, y) == CellState::Alive {
        1
    } else {
        0
    }
}

/// How many of the eight cells around `(x, y)` are alive. The cell itself is
/// not counted.
pub open spec fn live_neighbours(g: Grid, x: int, y: int) -> int {
    live(g, x - 1, y - 1) + live(g, x, y - 1) + live(g, x + 1, y - 1)
        + live(g, x - 1, y) + live(g, x + 1, y)
        + live(g, x - 1, y + 1) + live(g, x, y + 1) + live(g, x + 1, y + 1)
}

/// The state of the cell at `(x, y)` one generation after `g`.
pub open spec fn next_cell(g: Grid, x: int, y: int) -> CellState {
    rule(cell(g, x, y), live_neighbours(g, x, y))
}

/// The generation after `g`: every cell follows the rule, judged on `g` itself.
pub open spec fn step(g: Grid) -> Grid {
    Seq::new(g.len(), |y: int| Seq::new(g[0].len(), |x: int| next_cell(g, x, y)))
}

/// The grid `n` generations after `g`.
pub open spec fn steps(g: Grid, n: nat) -> Grid
    decreases n,
{
    if n == 0 {
        g
    } else {
        step(steps(g, (n - 1) as nat))
    }
}

/// The all-dead grid is a rectangle of the size asked for, and every
/// coordinate reads a dead cell on it.
pub proof fn lemma_dead_grid(columns: int, rows: int, x: int, y: int)
    requires
        columns > 0,
        rows > 0,
    ensures
        rectangular(dead_grid(columns, rows)),
        width(dead_grid(columns, rows)) == columns,
        height(dead_grid(columns, rows)) == rows,
        cell(dead_grid(columns, rows), x, y) == CellState::Dead,
{
    lemma_wrap_in_bounds(x, columns);
    lemma_wrap_in_bounds(y, rows);
}

/// Writing a cell keeps the shape of the grid, changes the cell written to, and
/// changes no other.
pub proof fn lemma_with_cell(g: Grid, x: int, y: int, s: CellState, x2: int, y2: int)
    requires
        rectangular(g),
    ensures
        rectangular(with_cell(g, x, y, s)),
        width(with_cell(g, x, y, s)) == width(g),
        height(with_cell(g, x, y, s)) == height(g),
        cell(with_cell(g, x, y, s), x2, y2) == if same_cell(g, x, y, x2, y2) {
            s
        } else {
            cell(g, x2, y2)
        },
{
    lemma_wrap_in_bounds(x, width(g));
    lemma_wrap_in_bounds(y, height(g));
    lemma_wrap_in_bounds(x2, width(g));
    lemma_wrap_in_bounds(y2, height(g));
    let after = with_cell(g, x, y, s);
    assert forall|i: int| 0 <= i < after.len() implies (#[trigger] after[i]).len()
        == after[0].len() by {
        assert(g[i].len() == g[0].len());
        assert(g[wrap(y, height(g))].len() == g[0].len());
    }
}

} // verus!
