//! Conway's Game of Life on a torus.
//!
//! A [`board::Board`] is a fixed-size grid of cells whose edges are joined:
//! every pair of integer coordinates names a cell, and
//! [`board::get_next_board`] computes a whole generation from a single
//! snapshot of the one before. What each operation does is stated over the
//! mathematical model in [`grid`], and the facts that hold of every board,
//! among them that a block never changes and that a glider is itself again
//! after four generations, are proved in [`theorems`] and [`glider`].

pub mod board;
pub mod cell;
pub mod glider;
pub mod grid;
pub mod pattern;
pub mod render;
pub mod theorems;
pub mod torus;
