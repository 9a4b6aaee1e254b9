//! Patterns that can be stamped onto a board.

use vstd::prelude::*;
use rand::rngs::ThreadRng;
use crate::board::Board;
use crate::cell::CellState;
use crate::grid::{cell, height, lemma_with_cell, rectangular, same_cell, width, with_cell, Grid};

verus! {

/// A named arrangement of live cells.
#[derive(Clone, Copy, Debug, PartialEq, Eq, Structural)]
pub enum Pattern {
    /// Five live cells that travel diagonally across the board.
    Glider,
    /// Each cell of the board comes alive with one chance in three.
    Random,
}

/// The handle of `rand`'s thread-local generator. Nothing of its state is
/// visible to the proofs.
#[verifier::external_type_specification]
#[verifier::external_body]
pub struct ExThreadRng(ThreadRng);

/// `rand::thread_rng`: the handle of the calling thread's generator, seeded by
/// the operating system. Nothing is claimed of the handle. The call panics only
/// where the system cannot seed the generator, which no argument decides.
pub assume_specification[ rand::thread_rng ]() -> (rng: ThreadRng)
;

/// `rand::Rng::gen` at `i32`: the next 32 bits of the generator. Nothing is
/// claimed of the value drawn: callers are verified for every `i32`.
#[verifier::external_body]
fn draw(rng: &mut ThreadRng) -> (value: i32) {
    rand::Rng::gen(rng)
}

/// Whether `(x, y)` resolves to one of the five cells of a glider stamped on
/// `g` at offset `(ox, oy)`.
pub open spec fn on_glider(g: Grid, ox: int, oy: int, x: int, y: int) -> bool {
    ||| same_cell(g, x, y, ox, oy)
    ||| same_cell(g, x, y, ox, oy + 2)
    ||| same_cell(g, x, y, ox + 1, oy + 1)
    ||| same_cell(g, x, y, ox + 1, oy + 2)
    ||| same_cell(g, x, y, ox + 2, oy + 1)
}

/// Whether `after` is `before` with a glider stamped on it at `(ox, oy)`: the
/// five cells of the glider are alive, and every other cell is as it was.
pub open spec fn glider_stamped(before: Grid, after: Grid, ox: int, oy: int) -> bool {
    forall|x: int, y: int| #[trigger]
        cell(after, x, y) == if on_glider(before, ox, oy, x, y) {
            CellState::Alive
        } else {
            cell(before, x, y)
        }
}

/// Whether a random draw brings a cell to life: one value in three does.
pub open spec fn draw_gives_life(value: int) -> bool {
    value % 3 == 0
}

/// Whether `after` has the shape of `before` and every cell alive in `before`
/// is alive in `after`.
pub open spec fn keeps_living(before: Grid, after: Grid) -> bool {
    &&& rectangular(after)
    &&& width(after) == width(before)
    &&& height(after) == height(before)
    &&& forall|x: int, y: int|
        cell(before, x, y) == CellState::Alive ==> #[trigger] cell(after, x, y)
            == CellState::Alive
}

/// Applies one random draw to the cell at `point`: the cell comes alive if the
/// draw is a multiple of three, and the board is left alone otherwise.
pub fn seed_cell(board: &mut Board, point: (i32, i32), value: i32)
    ensures
        final(board)@ == if draw_gives_life(value as int) {
            with_cell(old(board)@, point.0 as int, point.1 as int, CellState::Alive)
        } else {
            old(board)@
        },
{
    if value % 3 == 0 {
        board.set_cell_state(point, CellState::Alive);
    }
}

/// Stamps `pattern` onto `board`.
///
/// A glider is placed at `offset`: its five cells, each wrapped round the board,
/// come alive, and no other cell changes. A random pattern ignores `offset` and
/// visits every cell of the board with a fresh draw; whatever is drawn, the
/// cells that were alive stay alive.
pub fn insert_pattern(board: &mut Board, pattern: Pattern, offset: (i32, i32))
    ensures
        rectangular(final(board)@),
        width(final(board)@) == width(old(board)@),
        height(final(board)@) == height(old(board)@),
        pattern == Pattern::Glider ==> glider_stamped(
            old(board)@,
            final(board)@,
            offset.0 as int,
            offset.1 as int,
        ),
        pattern == Pattern::Random ==> keeps_living(old(board)@, final(board)@),
{
    let columns: i32 = board.width();
    let rows: i32 = board.height();
    match pattern {
        Pattern::Glider => {
            let ghost g0 = board@;
            board.set_cell_state_with_offset((0, 0), CellState::Alive, offset);
            let ghost g1 = board@;
            board.set_cell_state_with_offset((0, 2), CellState::Alive, offset);
            let ghost g2 = board@;
            board.set_cell_state_with_offset((1, 1), CellState::Alive, offset);
            let ghost g3 = board@;
            board.set_cell_state_with_offset((1, 2), CellState::Alive, offset);
            let ghost g4 = board@;
            board.set_cell_state_with_offset((2, 1), CellState::Alive, offset);
            proof {
                let ox = offset.0 as int;
                let oy = offset.1 as int;
                lemma_with_cell(g0, ox, oy, CellState::Alive, 0, 0);
                lemma_with_cell(g1, ox, oy + 2, CellState::Alive, 0, 0);
                lemma_with_cell(g2, ox + 1, oy + 1, CellState::Alive, 0, 0);
                lemma_with_cell(g3, ox + 1, oy + 2, CellState::Alive, 0, 0);
                lemma_with_cell(g4, ox + 2, oy + 1, CellState::Alive, 0, 0);
                assert forall|x: int, y: int|
                    #[trigger] cell(board@, x, y) == if on_glider(g0, ox, oy, x, y) {
                        CellState::Alive
                    } else {
                        cell(g0, x, y)
                    } by {
                    lemma_with_cell(g0, ox, oy, CellState::Alive, x, y);
                    lemma_with_cell(g1, ox, oy + 2, CellState::Alive, x, y);
                    lemma_with_cell(g2, ox + 1, oy + 1, CellState::Alive, x, y);
                    lemma_with_cell(g3, ox + 1, oy + 2, CellState::Alive, x, y);
                    lemma_with_cell(g4, ox + 2, oy + 1, CellState::Alive, x, y);
                }
            }
        },
        Pattern::Random => {
            let mut rng = rand::thread_rng();
            let mut y: i32 = 0;
            while y < rows
                invariant
                    0 <= y <= rows,
                    0 < columns,
                    rectangular(old(board)@),
                    keeps_living(old(board)@, board@),
                decreases rows - y,
            {
                let mut x: i32 = 0;
                while x < columns
                    invariant
                        0 <= x <= columns,
                        rectangular(old(board)@),
                        keeps_living(old(board)@, board@),
                    decreases columns - x,
                {
                    let value: i32 = draw(&mut rng);
                    let ghost before = board@;
                    seed_cell(board, (x, y), value);
                    proof {
                        lemma_with_cell(before, x as int, y as int, CellState::Alive, 0, 0);
                        assert forall|cx: int, cy: int|
                            cell(old(board)@, cx, cy) == CellState::Alive implies #[trigger] cell(
                            board@,
                            cx,
                            cy,
                        ) == CellState::Alive by {
                            lemma_with_cell(before, x as int, y as int, CellState::Alive, cx, cy);
                            assert(cell(before, cx, cy) == CellState::Alive);
                        }
                    }
                    x = x + 1;
                }
                y = y + 1;
            }
        },
    }
}

} // verus!
