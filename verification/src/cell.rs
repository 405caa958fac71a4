use vstd::prelude::*;

use crate::Pawn;

verus! {

/// Whether a one-shot cell item (timer, camera, crystal ball) is still usable.
#[derive(Debug, Clone, Copy, PartialEq, Eq, Structural)]
pub enum CellItemAvailability {
    Available,
    Used,
}

/// What occupies one cell of a tile's grid.
#[derive(Debug, Clone, Copy, PartialEq, Eq, Structural)]
pub enum TileCell {
    /// Pawns walk freely through
    Empty,
    /// A pawn can be warped to this point
    Warp(Pawn),
    /// Can flip the sand timer
    TimerFlip(CellItemAvailability),
    /// Security camera
    Camera(CellItemAvailability),
    /// Loot that a pawn must steal before exiting
    Loot(Pawn),
    /// Final exit for a pawn
    FinalExit(Pawn),
    /// Crystal ball
    CrystalBall(CellItemAvailability),
}

impl Default for TileCell {
    fn default() -> (r: Self)
        ensures
            r == TileCell::Empty,
    {
        TileCell::Empty
    }
}

/// True for the cells whose one-shot item has been used up.
pub open spec fn spec_is_used(c: TileCell) -> bool {
    ||| c == TileCell::TimerFlip(CellItemAvailability::Used)
    ||| c == TileCell::Camera(CellItemAvailability::Used)
    ||| c == TileCell::CrystalBall(CellItemAvailability::Used)
}

/// Replaces the availability of a cell that carries one; leaves every other
/// cell unchanged.
pub open spec fn spec_set_availability(c: TileCell, a: CellItemAvailability) -> TileCell {
    match c {
        TileCell::TimerFlip(_) => TileCell::TimerFlip(a),
        TileCell::Camera(_) => TileCell::Camera(a),
        TileCell::CrystalBall(_) => TileCell::CrystalBall(a),
        _ => c,
    }
}

/// The single-character encoding of cells, as read by the tile parser.
pub open spec fn spec_parse_cell(c: char) -> Option<TileCell> {
    match c {
        ' ' => Some(TileCell::Empty),
        '1' => Some(TileCell::Warp(Pawn::Green)),
        '2' => Some(TileCell::Warp(Pawn::Orange)),
        '3' => Some(TileCell::Warp(Pawn::Yellow)),
        '4' => Some(TileCell::Warp(Pawn::Purple)),
        'g' => Some(TileCell::Loot(Pawn::Green)),
        'o' => Some(TileCell::Loot(Pawn::Orange)),
        'y' => Some(TileCell::Loot(Pawn::Yellow)),
        'p' => Some(TileCell::Loot(Pawn::Purple)),
        'G' => Some(TileCell::FinalExit(Pawn::Green)),
        'O' => Some(TileCell::FinalExit(Pawn::Orange)),
        'Y' => Some(TileCell::FinalExit(Pawn::Yellow)),
        'P' => Some(TileCell::FinalExit(Pawn::Purple)),
        't' => Some(TileCell::TimerFlip(CellItemAvailability::Available)),
        'c' => Some(TileCell::Camera(CellItemAvailability::Available)),
        'b' => Some(TileCell::CrystalBall(CellItemAvailability::Available)),
        _ => None,
    }
}

impl TileCell {
    /// Whether this cell's one-shot item has been used up.
    pub fn is_used(self) -> (r: bool)
        ensures
            r == spec_is_used(self),
    {
        match self {
            TileCell::TimerFlip(CellItemAvailability::Used) => true,
            TileCell::Camera(CellItemAvailability::Used) => true,
            TileCell::CrystalBall(CellItemAvailability::Used) => true,
            _ => false,
        }
    }

    /// Marks the cell's item with the given availability; a no-op on cells
    /// that carry none.
    pub fn set_availability(&mut self, new_used: CellItemAvailability)
        ensures
            *final(self) == spec_set_availability(*old(self), new_used),
    {
        match *self {
            TileCell::TimerFlip(_) => {
                *self = TileCell::TimerFlip(new_used);
            },
            TileCell::Camera(_) => {
                *self = TileCell::Camera(new_used);
            },
            TileCell::CrystalBall(_) => {
                *self = TileCell::CrystalBall(new_used);
            },
            _ => {},
        }
    }

    /// Parses the single-character encoding of a cell.
    pub fn parse(c: char) -> (r: Option<TileCell>)
        ensures
            r == spec_parse_cell(c),
    {
        match c {
            ' ' => Some(TileCell::Empty),
            '1' => Some(TileCell::Warp(Pawn::Green)),
            '2' => Some(TileCell::Warp(Pawn::Orange)),
            '3' => Some(TileCell::Warp(Pawn::Yellow)),
            '4' => Some(TileCell::Warp(Pawn::Purple)),
            'g' => Some(TileCell::Loot(Pawn::Green)),
            'o' => Some(TileCell::Loot(Pawn::Orange)),
            'y' => Some(TileCell::Loot(Pawn::Yellow)),
            'p' => Some(TileCell::Loot(Pawn::Purple)),
            'G' => Some(TileCell::FinalExit(Pawn::Green)),
            'O' => Some(TileCell::FinalExit(Pawn::Orange)),
            'Y' => Some(TileCell::FinalExit(Pawn::Yellow)),
            'P' => Some(TileCell::FinalExit(Pawn::Purple)),
            't' => Some(TileCell::TimerFlip(CellItemAvailability::Available)),
            'c' => Some(TileCell::Camera(CellItemAvailability::Available)),
            'b' => Some(TileCell::CrystalBall(CellItemAvailability::Available)),
            _ => None,
        }
    }
}

/// Setting an availability twice in a row is the same as setting it once.
pub proof fn lemma_set_availability_idempotent(c: TileCell, a: CellItemAvailability)
    ensures
        spec_set_availability(spec_set_availability(c, a), a) == spec_set_availability(c, a),
{
}

/// Setting an availability on a cell that carries none leaves the cell as it was.
pub proof fn lemma_set_availability_stateless_noop(c: TileCell, a: CellItemAvailability)
    requires
        !(c is TimerFlip),
        !(c is Camera),
        !(c is CrystalBall),
    ensures
        spec_set_availability(c, a) == c,
{
}

} // verus!
