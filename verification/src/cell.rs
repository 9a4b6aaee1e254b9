//! The state of one cell and the rule by which it changes.

use vstd::prelude::*;

verus! {

/// A cell is either alive or dead.
#[derive(Clone, Copy, Debug, PartialEq, Eq, Structural)]
pub enum CellState {
    Alive,
    Dead,
}

/// The state a cell takes in the next generation, given its state now and the
/// number of its neighbours that are alive now.
///
/// A live cell survives with two or three live neighbours; a dead cell comes
/// alive with exactly three.
pub open spec fn rule(state: CellState, live_neighbours: int) -> CellState {
    match state {
        CellState::Alive => if live_neighbours == 2 || live_neighbours == 3 {
            CellState::Alive
        } else {
            CellState::Dead
        },
        CellState::Dead => if live_neighbours == 3 {
            CellState::Alive
        } else {
            CellState::Dead
        },
    }
}

} // verus!
