use vstd::prelude::*;

use crate::direction::SpinDirection;

verus! {

/// Number of cells along each side of a tile's grid.
pub const GRID_WIDTH: u8 = 4;

/// Index (x, y) into a tile's cell grid.
///
/// - `x` goes from left to right
/// - `y` goes from top to bottom
///
/// Values are only constructed through the validating factory [`TileGridCoord::new`],
/// so both components are always below [`GRID_WIDTH`].
#[derive(Debug, Clone, Copy, PartialEq, Eq, PartialOrd, Ord, Hash, Structural)]
pub struct TileGridCoord {
    x: u8,
    y: u8,
}

impl View for TileGridCoord {
    type V = (u8, u8);

    closed spec fn view(&self) -> (u8, u8) {
        (self.x, self.y)
    }
}

/// The result of turning the coordinate pair `c` a quarter turn within the grid.
pub open spec fn spec_rotated_coord(c: (u8, u8), spin: SpinDirection) -> (u8, u8)
    recommends
        c.0 < GRID_WIDTH,
        c.1 < GRID_WIDTH,
{
    match spin {
        SpinDirection::Clockwise => ((GRID_WIDTH - 1 - c.1) as u8, c.0),
        SpinDirection::CounterClockwise => (c.1, (GRID_WIDTH - 1 - c.0) as u8),
    }
}

impl TileGridCoord {
    /// Both components lie inside the grid.
    pub open spec fn wf(self) -> bool {
        self@.0 < GRID_WIDTH && self@.1 < GRID_WIDTH
    }

    /// Validating factory: accepts exactly the coordinates inside the grid.
    pub fn new(x: u8, y: u8) -> (r: Option<TileGridCoord>)
        ensures
            x < GRID_WIDTH && y < GRID_WIDTH ==> (r matches Some(c) && c@ == (x, y) && c.wf()),
            !(x < GRID_WIDTH && y < GRID_WIDTH) ==> r is None,
    {
        if x < GRID_WIDTH && y < GRID_WIDTH {
            Some(TileGridCoord { x, y })
        } else {
            None
        }
    }

    /// Offsets the coordinate by signed deltas; `None` when the result
    /// falls outside the grid.
    pub fn added(self, add: (i8, i8)) -> (r: Option<TileGridCoord>)
        ensures
            ({
                let nx = self@.0 + add.0;
                let ny = self@.1 + add.1;
                if 0 <= nx < GRID_WIDTH && 0 <= ny < GRID_WIDTH {
                    (r matches Some(c) && c@ == (nx as u8, ny as u8) && c.wf())
                } else {
                    r is None
                }
            }),
    {
        let nx: i16 = self.x as i16 + add.0 as i16;
        let ny: i16 = self.y as i16 + add.1 as i16;
        if 0 <= nx && nx < GRID_WIDTH as i16 && 0 <= ny && ny < GRID_WIDTH as i16 {
            Some(TileGridCoord { x: nx as u8, y: ny as u8 })
        } else {
            None
        }
    }

    #[inline(always)]
    pub fn x(self) -> (r: u8)
        ensures
            r == self@.0,
    {
        self.x
    }

    #[inline(always)]
    pub fn y(self) -> (r: u8)
        ensures
            r == self@.1,
    {
        self.y
    }

    /// Turns the coordinate a quarter turn in place.
    pub fn rotate(&mut self, spin: SpinDirection)
        requires
            old(self).wf(),
        ensures
            final(self)@ == spec_rotated_coord(old(self)@, spin),
            final(self).wf(),
    {
        *self = self.as_rotated(spin);
    }

    /// The coordinate turned a quarter turn within the grid.
    pub fn as_rotated(self, spin: SpinDirection) -> (r: TileGridCoord)
        requires
            self.wf(),
        ensures
            r@ == spec_rotated_coord(self@, spin),
            r.wf(),
    {
        match spin {
            SpinDirection::Clockwise => TileGridCoord { x: GRID_WIDTH - 1 - self.y, y: self.x },
            SpinDirection::CounterClockwise => TileGridCoord {
                x: self.y,
                y: GRID_WIDTH - 1 - self.x,
            },
        }
    }
}

/// Two coordinates are equal exactly when their views are.
pub proof fn lemma_coord_eq_view(a: TileGridCoord, b: TileGridCoord)
    ensures
        (a == b) <==> (a@ == b@),
{
}

/// Rotating a coordinate one way and then the other restores it, and four
/// quarter turns in the same sense are the identity.
pub proof fn lemma_rotated_coord_round_trip(c: (u8, u8))
    requires
        c.0 < GRID_WIDTH,
        c.1 < GRID_WIDTH,
    ensures
        spec_rotated_coord(
            spec_rotated_coord(c, SpinDirection::Clockwise),
            SpinDirection::CounterClockwise,
        ) == c,
        spec_rotated_coord(
            spec_rotated_coord(c, SpinDirection::CounterClockwise),
            SpinDirection::Clockwise,
        ) == c,
{
}

} // verus!
