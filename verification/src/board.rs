//! The board: a grid of cells on a torus, and the step from one generation to
//! the next.

use vstd::prelude::*;
use crate::cell::CellState;
use crate::grid::{
    cell, dead_grid, height, live, live_neighbours, next_cell, rectangular, step, width,
    with_cell, Grid,
};
use crate::torus::wrap_index;

verus! {

/// A fixed-size grid of cells whose last column and row are next to its first.
pub struct Board {
    state: Vec<Vec<CellState>>,
}

impl View for Board {
    type V = Grid;

    closed spec fn view(&self) -> Grid {
        Seq::new(self.state@.len(), |y: int| self.state@[y]@)
    }
}

/// Overwrites one cell of a table of rows, by its indices.
fn write_cell(rows: &mut Vec<Vec<CellState>>, row: usize, col: usize, state: CellState)
    requires
        row < old(rows)@.len(),
        col < old(rows)@[row as int]@.len(),
    ensures
        final(rows)@.len() == old(rows)@.len(),
        final(rows)@[row as int]@ == old(rows)@[row as int]@.update(col as int, state),
        forall|i: int|
            0 <= i < old(rows)@.len() && i != row ==> #[trigger] final(rows)@[i] == old(
                rows,
            )@[i],
    no_unwind
{
    rows[row][col] = state;
}

impl Board {
    #[verifier::type_invariant]
    spec fn inv(&self) -> bool {
        &&& 0 < self.state@.len() <= i32::MAX
        &&& 0 < self.state@[0]@.len() <= i32::MAX
        &&& forall|i: int|
            0 <= i < self.state@.len() ==> (#[trigger] self.state@[i])@.len()
                == self.state@[0]@.len()
    }

    /// A board of `width` columns and `height` rows on which every cell is dead.
    pub fn new(width: i32, height: i32) -> (board: Board)
        requires
            width > 0,
            height > 0,
        ensures
            board@ == dead_grid(width as int, height as int),
            rectangular(board@),
    {
        let mut state: Vec<Vec<CellState>> = Vec::new();
        let mut y: i32 = 0;
        while y < height
            invariant
                0 <= y <= height,
                width > 0,
                state@.len() == y,
                forall|i: int| 0 <= i < y ==> (#[trigger] state@[i])@ == Seq::new(
                    width as nat,
                    |x: int| CellState::Dead,
                ),
            decreases height - y,
        {
            let mut row: Vec<CellState> = Vec::new();
            let mut x: i32 = 0;
            while x < width
                invariant
                    0 <= x <= width,
                    row@.len() == x,
                    forall|i: int| 0 <= i < x ==> row@[i] == CellState::Dead,
                decreases width - x,
            {
                row.push(CellState::Dead);
                x = x + 1;
            }
            assert(row@ =~= Seq::new(width as nat, |x: int| CellState::Dead));
            state.push(row);
            y = y + 1;
        }
        let board = Board { state };
        assert(board@ =~= dead_grid(width as int, height as int));
        board
    }

    /// The number of columns.
    pub fn width(&self) -> (w: i32)
        ensures
            w == width(self@),
            w > 0,
            rectangular(self@),
    {
        proof {
            use_type_invariant(self);
        }
        self.state[0].len() as i32
    }

    /// The number of rows.
    pub fn height(&self) -> (h: i32)
        ensures
            h == height(self@),
            h > 0,
            rectangular(self@),
    {
        proof {
            use_type_invariant(self);
        }
        self.state.len() as i32
    }

    fn state_at(&self, x: i64, y: i64) -> (s: CellState)
        ensures
            s == cell(self@, x as int, y as int),
    {
        proof {
            use_type_invariant(self);
        }
        let row: usize = wrap_index(y, self.state.len());
        let col: usize = wrap_index(x, self.state[0].len());
        self.state[row][col]
    }

    fn live_at(&self, x: i64, y: i64) -> (n: i32)
        ensures
            n == live(self@, x as int, y as int),
    {
        match self.state_at(x, y) {
            CellState::Alive => 1,
            CellState::Dead => 0,
        }
    }

    /// The state of the cell that `point` resolves to. Any coordinates will do:
    /// each wraps round its axis.
    pub fn get_cell_state(&self, point: (i32, i32)) -> (s: CellState)
        ensures
            s == cell(self@, point.0 as int, point.1 as int),
    {
        self.state_at(point.0 as i64, point.1 as i64)
    }

    fn put(&mut self, x: i64, y: i64, state: CellState)
        ensures
            final(self)@ == with_cell(old(self)@, x as int, y as int, state),
            rectangular(final(self)@),
    {
        proof {
            use_type_invariant(&*self);
        }
        let row: usize = wrap_index(y, self.state.len());
        let col: usize = wrap_index(x, self.state[0].len());
        write_cell(&mut self.state, row, col, state);
        assert(self@ =~= with_cell(old(self)@, x as int, y as int, state));
    }

    /// Gives the cell that `point` resolves to the state `state`, and leaves
    /// every other cell as it is.
    pub fn set_cell_state(&mut self, point: (i32, i32), state: CellState)
        ensures
            final(self)@ == with_cell(old(self)@, point.0 as int, point.1 as int, state),
            rectangular(final(self)@),
    {
        self.put(point.0 as i64, point.1 as i64, state);
    }

    /// Like `set_cell_state`, on the cell at `point` displaced by `offset`.
    /// The sum is taken over the integers, so it cannot overflow.
    pub fn set_cell_state_with_offset(
        &mut self,
        point: (i32, i32),
        state: CellState,
        offset: (i32, i32),
    )
        ensures
            final(self)@ == with_cell(
                old(self)@,
                point.0 + offset.0,
                point.1 + offset.1,
                state,
            ),
            rectangular(final(self)@),
    {
        self.put(point.0 as i64 + offset.0 as i64, point.1 as i64 + offset.1 as i64, state);
    }

    /// How many of the eight cells around `point` are alive, each of them found
    /// by wrapping round the board.
    pub fn count_live_neighbours(&self, point: (i32, i32)) -> (count: i32)
        ensures
            count == live_neighbours(self@, point.0 as int, point.1 as int),
            0 <= count <= 8,
    {
        let x: i64 = point.0 as i64;
        let y: i64 = point.1 as i64;
        self.live_at(x - 1, y - 1) + self.live_at(x, y - 1) + self.live_at(x + 1, y - 1)
            + self.live_at(x - 1, y) + self.live_at(x + 1, y)
            + self.live_at(x - 1, y + 1) + self.live_at(x, y + 1) + self.live_at(x + 1, y + 1)
    }

    /// The state that the cell at `point` has in the next generation.
    pub fn get_next_cell_state(&self, point: (i32, i32)) -> (s: CellState)
        ensures
            s == next_cell(self@, point.0 as int, point.1 as int),
    {
        let live_neighbours: i32 = self.count_live_neighbours(point);
        match self.get_cell_state(point) {
            CellState::Alive => {
                if live_neighbours < 2 || live_neighbours > 3 {
                    CellState::Dead
                } else {
                    CellState::Alive
                }
            },
            CellState::Dead => {
                if live_neighbours == 3 {
                    CellState::Alive
                } else {
                    CellState::Dead
                }
            },
        }
    }
}

/// The generation after `board`, as a new board of the same size.
///
/// Every cell of the result is judged on `board` as it was given: no cell sees
/// a neighbour that has already been updated.
pub fn get_next_board(board: &Board) -> (next: Board)
    ensures
        next@ == step(board@),
        rectangular(next@),
        width(next@) == width(board@),
        height(next@) == height(board@),
{
    let columns: i32 = board.width();
    let rows: i32 = board.height();
    let mut state: Vec<Vec<CellState>> = Vec::new();
    let mut y: i32 = 0;
    while y < rows
        invariant
            0 <= y <= rows,
            columns > 0,
            state@.len() == y,
            forall|i: int|
                0 <= i < y ==> (#[trigger] state@[i])@ == Seq::new(
                    columns as nat,
                    |x: int| next_cell(board@, x, i),
                ),
        decreases rows - y,
    {
        let mut row: Vec<CellState> = Vec::new();
        let mut x: i32 = 0;
        while x < columns
            invariant
                0 <= x <= columns,
                row@.len() == x,
                forall|i: int| 0 <= i < x ==> row@[i] == next_cell(board@, i, y as int),
            decreases columns - x,
        {
            row.push(board.get_next_cell_state((x, y)));
            x = x + 1;
        }
        assert(row@ =~= Seq::new(columns as nat, |x: int| next_cell(board@, x, y as int)));
        state.push(row);
        y = y + 1;
    }
    let next = Board { state };
    assert(next@ =~= step(board@));
    next
}

} // verus!
