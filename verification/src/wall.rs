use vstd::prelude::*;

use crate::Pawn;

verus! {

/// The state of one wall slot between two cells (or on the tile's rim).
#[derive(Debug, Clone, Copy, PartialEq, Eq, Structural)]
pub enum WallState {
    /// No wall: pawns pass freely.
    Open,
    /// A solid wall.
    Blocked,
    /// A wall that opens when the given pawn explores through it.
    Explore(Pawn),
    /// A rim wall through which pawns enter the tile.
    Entrance,
    /// A restricted passage that only the orange pawn may use.
    OrangeOnly,
}

impl Default for WallState {
    fn default() -> (r: Self)
        ensures
            r == WallState::Open,
    {
        WallState::Open
    }
}

/// The single-character encoding of walls, as read by the tile parser.
/// `OrangeOnly` has no textual encoding.
pub open spec fn spec_parse_wall(c: char) -> Option<WallState> {
    match c {
        '-' => Some(WallState::Blocked),
        '|' => Some(WallState::Blocked),
        ' ' => Some(WallState::Open),
        '5' => Some(WallState::Explore(Pawn::Green)),
        '6' => Some(WallState::Explore(Pawn::Orange)),
        '7' => Some(WallState::Explore(Pawn::Yellow)),
        '8' => Some(WallState::Explore(Pawn::Purple)),
        '^' => Some(WallState::Entrance),
        _ => None,
    }
}

impl WallState {
    /// Parses the single-character encoding of a wall.
    pub fn parse(c: char) -> (r: Option<WallState>)
        ensures
            r == spec_parse_wall(c),
    {
        match c {
            '-' | '|' => Some(WallState::Blocked),
            ' ' => Some(WallState::Open),
            '5' => Some(WallState::Explore(Pawn::Green)),
            '6' => Some(WallState::Explore(Pawn::Orange)),
            '7' => Some(WallState::Explore(Pawn::Yellow)),
            '8' => Some(WallState::Explore(Pawn::Purple)),
            '^' => Some(WallState::Entrance),
            _ => None,
        }
    }
}

} // verus!
