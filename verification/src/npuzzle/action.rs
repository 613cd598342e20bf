//! The closed vocabulary of moves and the displacement each one stands for.

use vstd::prelude::*;

verus! {

/// A move of the blank: one step along an axis, or no move at all.
///
/// The x axis grows to the right and the y axis grows downwards, as the
/// rows of a board do.
#[derive(Debug, Clone, Copy, PartialEq, Eq, Structural)]
pub enum Action {
    Up,
    Down,
    Left,
    Right,
    No,
}

impl Action {
    /// Displacement along the x axis.
    pub open spec fn delta_x(self) -> int {
        match self {
            Action::Up => 0,
            Action::Down => 0,
            Action::Left => -1,
            Action::Right => 1,
            Action::No => 0,
        }
    }

    /// Displacement along the y axis.
    pub open spec fn delta_y(self) -> int {
        match self {
            Action::Up => -1,
            Action::Down => 1,
            Action::Left => 0,
            Action::Right => 0,
            Action::No => 0,
        }
    }

    /// How far the action moves along the x axis.
    pub fn impact_x(&self) -> (dx: i32)
        ensures
            dx == self.delta_x(),
    {
        match *self {
            Action::Up => 0,
            Action::Down => 0,
            Action::Left => -1,
            Action::Right => 1,
            Action::No => 0,
        }
    }

    /// How far the action moves along the y axis.
    pub fn impact_y(&self) -> (dy: i32)
        ensures
            dy == self.delta_y(),
    {
        match *self {
            Action::Up => -1,
            Action::Down => 1,
            Action::Left => 0,
            Action::Right => 0,
            Action::No => 0,
        }
    }
}

/// The displacement of an action depends on the variant alone, and the five
/// variants stand for exactly the four unit steps and the null step.
pub proof fn lemma_displacement_table(a: Action)
    ensures
        a == Action::Up <==> (a.delta_x() == 0 && a.delta_y() == -1),
        a == Action::Down <==> (a.delta_x() == 0 && a.delta_y() == 1),
        a == Action::Left <==> (a.delta_x() == -1 && a.delta_y() == 0),
        a == Action::Right <==> (a.delta_x() == 1 && a.delta_y() == 0),
        a == Action::No <==> (a.delta_x() == 0 && a.delta_y() == 0),
{
}

/// Two actions with the same displacement are the same action.
pub proof fn lemma_displacement_injective(a: Action, b: Action)
    requires
        a.delta_x() == b.delta_x(),
        a.delta_y() == b.delta_y(),
    ensures
        a == b,
{
}

} // verus!
