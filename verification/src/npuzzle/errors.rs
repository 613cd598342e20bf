//! What can be wrong with the tiles of a board.

use vstd::prelude::*;

verus! {

/// The first reason found for which a board is not a well-formed instance.
#[derive(Debug, Clone, Copy, PartialEq, Eq, Structural)]
pub enum IncorrectBoardError {
    /// The board does not hold as many tiles as it has cells.
    WrongNumberOfTile { found: usize, expected: usize },
    /// A tile carries a number that no cell of the board can have.
    OutOfBoundTile { tile: usize },
    /// A tile carries the number of a tile that comes before it.
    DuplicatedTile { tile: usize },
}

} // verus!
