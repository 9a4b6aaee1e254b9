//! What holds of every board: facts about wraparound, the rule, and the step
//! from one generation to the next.

use vstd::prelude::*;
use crate::cell::{rule, CellState};
use crate::grid::{
    cell, height, live_neighbours, next_cell, rectangular, same_cell, step, steps, width, Grid,
};
use crate::torus::{
    lemma_wrap_identity, lemma_wrap_in_bounds, lemma_wrap_neighbours, lemma_wrap_periodic, wrap,
};

verus! {

/// Any coordinates, however far outside the board, resolve to a column index
/// and a row index inside it, and the cell read there is the cell stored at
/// those indices. Coordinates inside the board resolve to themselves.
pub proof fn lemma_coordinates_resolve_in_bounds(g: Grid, x: int, y: int)
    requires
        rectangular(g),
    ensures
        0 <= wrap(x, width(g)) < width(g),
        0 <= wrap(y, height(g)) < height(g),
        cell(g, x, y) == g[wrap(y, height(g))][wrap(x, width(g))],
        0 <= x < width(g) ==> wrap(x, width(g)) == x,
        0 <= y < height(g) ==> wrap(y, height(g)) == y,
{
    lemma_wrap_in_bounds(x, width(g));
    lemma_wrap_in_bounds(y, height(g));
    if 0 <= x < width(g) {
        lemma_wrap_identity(x, width(g));
    }
    if 0 <= y < height(g) {
        lemma_wrap_identity(y, height(g));
    }
}

/// Going round the board any number of times along either axis leads back to
/// the same cell.
pub proof fn lemma_cell_is_periodic(g: Grid, x: int, y: int, turns_x: int, turns_y: int)
    requires
        rectangular(g),
    ensures
        same_cell(g, x + turns_x * width(g), y + turns_y * height(g), x, y),
        cell(g, x + turns_x * width(g), y + turns_y * height(g)) == cell(g, x, y),
{
    lemma_wrap_periodic(x, turns_x, width(g));
    lemma_wrap_periodic(y, turns_y, height(g));
}

/// The neighbour count is never below zero nor above eight.
pub proof fn lemma_live_neighbours_range(g: Grid, x: int, y: int)
    ensures
        0 <= live_neighbours(g, x, y) <= 8,
{
}

/// Where the cell at `(x, y)` and all eight cells around it are alive, the
/// cell has eight live neighbours.
pub proof fn lemma_full_block_counts_eight(g: Grid, x: int, y: int)
    requires
        rectangular(g),
        forall|dx: int, dy: int|
            -1 <= dx <= 1 && -1 <= dy <= 1 ==> #[trigger] cell(g, x + dx, y + dy)
                == CellState::Alive,
    ensures
        live_neighbours(g, x, y) == 8,
{
    assert(cell(g, x + (-1), y + (-1)) == CellState::Alive);
    assert(cell(g, x + 0, y + (-1)) == CellState::Alive);
    assert(cell(g, x + 1, y + (-1)) == CellState::Alive);
    assert(cell(g, x + (-1), y + 0) == CellState::Alive);
    assert(cell(g, x + 1, y + 0) == CellState::Alive);
    assert(cell(g, x + (-1), y + 1) == CellState::Alive);
    assert(cell(g, x + 0, y + 1) == CellState::Alive);
    assert(cell(g, x + 1, y + 1) == CellState::Alive);
}

/// The rule in one sentence: a cell is alive in the next generation exactly if
/// it has three live neighbours, or is alive and has two.
pub proof fn lemma_rule_alive_iff(state: CellState, live_neighbours: int)
    ensures
        rule(state, live_neighbours) == CellState::Alive <==> live_neighbours == 3 || (state
            == CellState::Alive && live_neighbours == 2),
{
}

/// A step keeps the shape of the board, and every cell of the new generation,
/// read through any coordinates, is the rule applied to the old generation.
pub proof fn lemma_step_is_simultaneous(g: Grid, x: int, y: int)
    requires
        rectangular(g),
    ensures
        rectangular(step(g)),
        width(step(g)) == width(g),
        height(step(g)) == height(g),
        cell(step(g), x, y) == next_cell(g, x, y),
{
    let w = width(g);
    let h = height(g);
    lemma_wrap_in_bounds(x, w);
    lemma_wrap_in_bounds(y, h);
    let cx = wrap(x, w);
    let cy = wrap(y, h);
    assert(step(g)[0].len() == w);
    assert(step(g)[cy][cx] == next_cell(g, cx, cy));
    lemma_next_cell_wrapped(g, x, y);
}

/// The next state of a cell does not depend on which coordinates name it.
pub proof fn lemma_next_cell_wrapped(g: Grid, x: int, y: int)
    requires
        rectangular(g),
    ensures
        next_cell(g, wrap(x, width(g)), wrap(y, height(g))) == next_cell(g, x, y),
{
    let w = width(g);
    let h = height(g);
    let cx = wrap(x, w);
    let cy = wrap(y, h);
    lemma_wrap_in_bounds(x, w);
    lemma_wrap_in_bounds(y, h);
    lemma_wrap_identity(cx, w);
    lemma_wrap_identity(cy, h);
    lemma_wrap_neighbours(x, w);
    lemma_wrap_neighbours(y, h);
    lemma_wrap_neighbours(cx, w);
    lemma_wrap_neighbours(cy, h);
}

/// Any number of steps keeps the shape of the board.
pub proof fn lemma_steps_keep_shape(g: Grid, n: nat)
    requires
        rectangular(g),
    ensures
        rectangular(steps(g, n)),
        width(steps(g, n)) == width(g),
        height(steps(g, n)) == height(g),
    decreases n,
{
    if n > 0 {
        lemma_steps_keep_shape(g, (n - 1) as nat);
        lemma_step_is_simultaneous(steps(g, (n - 1) as nat), 0, 0);
    }
}

/// Whether `(x, y)` resolves to one of the four cells of the two-by-two block
/// whose top left cell is at `(bx, by)`.
pub open spec fn on_block(g: Grid, bx: int, by: int, x: int, y: int) -> bool {
    ||| same_cell(g, x, y, bx, by)
    ||| same_cell(g, x, y, bx + 1, by)
    ||| same_cell(g, x, y, bx, by + 1)
    ||| same_cell(g, x, y, bx + 1, by + 1)
}

/// Whether the live cells of `g` are exactly those of the block at `(bx, by)`.
pub open spec fn lone_block(g: Grid, bx: int, by: int) -> bool {
    forall|x: int, y: int| #[trigger]
        cell(g, x, y) == CellState::Alive <==> on_block(g, bx, by, x, y)
}

/// A lone block is the same one generation later, on any board with at least
/// three columns and three rows.
pub proof fn lemma_block_is_fixed(g: Grid, bx: int, by: int)
    requires
        rectangular(g),
        width(g) >= 3,
        height(g) >= 3,
        lone_block(g, bx, by),
    ensures
        step(g) == g,
{
    let w = width(g);
    let h = height(g);
    lemma_wrap_in_bounds(bx, w);
    lemma_wrap_in_bounds(by, h);
    lemma_wrap_neighbours(bx, w);
    lemma_wrap_neighbours(by, h);
    assert forall|y: int, x: int| 0 <= y < h && 0 <= x < w implies #[trigger] step(g)[y][x]
        == g[y][x] by {
        assert(g[y].len() == w);
        lemma_wrap_identity(x, w);
        lemma_wrap_identity(y, h);
        lemma_wrap_neighbours(x, w);
        lemma_wrap_neighbours(y, h);
        assert(next_cell(g, x, y) == cell(g, x, y));
    }
    assert forall|y: int| 0 <= y < h implies #[trigger] step(g)[y] == g[y] by {
        assert(g[y].len() == w);
        assert(step(g)[y] =~= g[y]) by {
            assert forall|x: int| 0 <= x < w implies step(g)[y][x] == g[y][x] by {
                assert(step(g)[y][x] == g[y][x]);
            }
        }
    }
    assert(step(g) =~= g);
}

/// Still life: a lone block is unchanged after any number of generations.
pub proof fn lemma_block_is_still(g: Grid, bx: int, by: int, n: nat)
    requires
        rectangular(g),
        width(g) >= 3,
        height(g) >= 3,
        lone_block(g, bx, by),
    ensures
        steps(g, n) == g,
    decreases n,
{
    if n > 0 {
        lemma_block_is_still(g, bx, by, (n - 1) as nat);
        lemma_block_is_fixed(g, bx, by);
    }
}

} // verus!
