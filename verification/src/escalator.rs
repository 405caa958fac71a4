use vstd::prelude::*;

use crate::direction::SpinDirection;
use crate::grid_coord::spec_rotated_coord;
use crate::grid_coord::TileGridCoord;
use crate::grid_coord::GRID_WIDTH;

verus! {

/// An unordered pair of grid coordinates joined by a same-tile escalator.
#[derive(Debug, Clone, Copy, PartialEq, Eq)]
pub struct EscalatorLocation(pub [TileGridCoord; 2]);

impl View for EscalatorLocation {
    type V = ((u8, u8), (u8, u8));

    open spec fn view(&self) -> ((u8, u8), (u8, u8)) {
        (self.0[0]@, self.0[1]@)
    }
}

/// Both endpoints lie inside the grid and are distinct.
pub open spec fn esc_wf(e: ((u8, u8), (u8, u8))) -> bool {
    &&& e.0.0 < GRID_WIDTH
    &&& e.0.1 < GRID_WIDTH
    &&& e.1.0 < GRID_WIDTH
    &&& e.1.1 < GRID_WIDTH
    &&& e.0 != e.1
}

/// Both endpoints of the pair turned a quarter turn.
pub open spec fn spec_rotated_esc(e: ((u8, u8), (u8, u8)), spin: SpinDirection) -> (
    (u8, u8),
    (u8, u8),
) {
    (spec_rotated_coord(e.0, spin), spec_rotated_coord(e.1, spin))
}

impl EscalatorLocation {
    pub open spec fn wf(self) -> bool {
        esc_wf(self@)
    }

    /// Turns both endpoints a quarter turn in place.
    pub fn rotate(&mut self, spin: SpinDirection)
        requires
            old(self).wf(),
        ensures
            final(self)@ == spec_rotated_esc(old(self)@, spin),
            final(self).wf(),
    {
        let a = self.0[0].as_rotated(spin);
        let b = self.0[1].as_rotated(spin);
        *self = EscalatorLocation([a, b]);
    }

    /// If `coord` is one of the endpoints, returns the other endpoint;
    /// otherwise `None`.
    pub fn coord_neighbor(&self, coord: TileGridCoord) -> (r: Option<TileGridCoord>)
        ensures
            self@.0 == coord@ ==> (r matches Some(n) && n@ == self@.1),
            self@.1 == coord@ && self@.0 != coord@ ==> (r matches Some(n) && n@ == self@.0),
            self@.0 != coord@ && self@.1 != coord@ ==> r is None,
    {
        proof {
            crate::grid_coord::lemma_coord_eq_view(self.0[0], coord);
            crate::grid_coord::lemma_coord_eq_view(self.0[1], coord);
        }
        if self.0[0] == coord {
            Some(self.0[1])
        } else if self.0[1] == coord {
            Some(self.0[0])
        } else {
            None
        }
    }
}

} // verus!
