use vstd::prelude::*;

use crate::direction::CartesianDirection;

verus! {

/// A thing a player may do on the board.
#[derive(Debug, Clone, Copy, PartialEq, Eq, Structural)]
pub enum BoardAction {
    Escalator,
    Explore,
    Slide(CartesianDirection),
    Warp,
}

/// A player's action.
#[derive(Debug, Clone, Copy, PartialEq, Eq, Structural)]
pub enum Action {
    BoardAction(BoardAction),
}

} // verus!
