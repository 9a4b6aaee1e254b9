//! The board as text.

use vstd::prelude::*;
use crate::board::Board;
use crate::cell::CellState;
use crate::grid::{rectangular, Grid};
use crate::torus::lemma_wrap_identity;

verus! {

/// The character that stands for a cell: `#` if it is alive, `.` if it is dead.
pub open spec fn glyph(state: CellState) -> char {
    match state {
        CellState::Alive => '#',
        CellState::Dead => '.',
    }
}

/// One line of text for one row: a border, one glyph per cell from left to
/// right, a border, and a line feed.
pub open spec fn row_text(row: Seq<CellState>) -> Seq<char> {
    seq!['|', ' '] + row.map_values(|state: CellState| glyph(state)) + seq![' ', '|', '\n']
}

/// The lines of the first `n` rows of `g`, top to bottom.
pub open spec fn rows_text(g: Grid, n: nat) -> Seq<char>
    decreases n,
{
    if n == 0 {
        Seq::empty()
    } else {
        rows_text(g, (n - 1) as nat) + row_text(g[n - 1])
    }
}

/// The text of the whole grid.
pub open spec fn grid_text(g: Grid) -> Seq<char> {
    rows_text(g, g.len())
}

/// `String::push`: appends one character to the end of the string.
pub assume_specification[ String::push ](text: &mut String, c: char)
    ensures
        final(text)@ == old(text)@.push(c),
;

impl Board {
    /// The board as text, one line per row.
    pub fn render(&self) -> (text: String)
        ensures
            text@ == grid_text(self@),
    {
        let columns: i32 = self.width();
        let rows: i32 = self.height();
        let mut text = String::new();
        let mut y: i32 = 0;
        while y < rows
            invariant
                0 <= y <= rows,
                columns == self@[0].len(),
                rows == self@.len(),
                rectangular(self@),
                text@ == rows_text(self@, y as nat),
            decreases rows - y,
        {
            let ghost above = text@;
            let ghost row = self@[y as int];
            text.push('|');
            text.push(' ');
            let mut x: i32 = 0;
            while x < columns
                invariant
                    0 <= x <= columns,
                    0 <= y < rows,
                    columns == self@[0].len(),
                    rows == self@.len(),
                    rectangular(self@),
                    row == self@[y as int],
                    text@ == above + seq!['|', ' '] + row.subrange(0, x as int).map_values(
                        |state: CellState| glyph(state),
                    ),
                decreases columns - x,
            {
                let state = self.get_cell_state((x, y));
                proof {
                    lemma_wrap_identity(x as int, columns as int);
                    lemma_wrap_identity(y as int, rows as int);
                    assert(row.len() == columns);
                    assert(row.subrange(0, x + 1) =~= row.subrange(0, x as int).push(row[x as int]));
                }
                let c = match state {
                    CellState::Alive => '#',
                    CellState::Dead => '.',
                };
                text.push(c);
                assert(text@ =~= above + seq!['|', ' '] + row.subrange(0, x + 1).map_values(
                    |state: CellState| glyph(state),
                ));
                x = x + 1;
            }
            text.push(' ');
            text.push('|');
            text.push('\n');
            proof {
                assert(row.len() == columns);
                assert(row.subrange(0, x as int) =~= row);
                assert(text@ =~= above + row_text(row));
            }
            y = y + 1;
        }
        text
    }
}

} // verus!
