//! A tile: one numbered label of the grid, the blank included.

use crate::text::{decimal, decimal_text};
use vstd::prelude::*;

verus! {

/// One label of the grid. The blank is the tile numbered 0; nothing here
/// treats it differently from the others.
#[derive(Debug, Clone, Copy, PartialEq, Eq, Hash, Structural)]
pub struct Tile {
    nbr: usize,
}

impl View for Tile {
    type V = nat;

    /// The number written on the tile.
    closed spec fn view(&self) -> nat {
        self.nbr as nat
    }
}

impl Tile {
    /// The tile that carries `nbr`.
    pub fn new(nbr: usize) -> (tile: Tile)
        ensures
            tile@ == nbr,
    {
        Tile { nbr }
    }

    /// The number written on the tile.
    pub fn to_nbr(&self) -> (nbr: usize)
        ensures
            nbr == self@,
    {
        self.nbr
    }

    /// The label of the tile: its number in decimal.
    pub fn to_string(&self) -> (label: String)
        ensures
            label@ == decimal(self@),
    {
        decimal_text(self.nbr)
    }
}

/// A tile is nothing but its number: two tiles are equal exactly when their
/// numbers are, and every number fits the machine word it is stored in.
pub proof fn lemma_tile_is_its_number(a: Tile, b: Tile)
    ensures
        a@ == b@ <==> a == b,
        a@ <= usize::MAX,
{
}

} // verus!
