//! State representation and structural validation for the sliding-tile
//! puzzle on an `N` x `N` grid, together with the command-line options of
//! the solver built on it.
//!
//! Every executable function carries a contract over a mathematical model
//! of its data (see [`npuzzle::board::BoardView`]); the laws that relate
//! several functions are public proof functions next to them.

pub mod cli;
pub mod npuzzle;
pub mod options;
pub mod text;
