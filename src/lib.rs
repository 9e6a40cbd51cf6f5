//! A tic-tac-toe board engine: a 3x3 grid, whose turn it is, and the rules
//! that take the game from one state to the next.

pub mod board;
pub mod theorems;
