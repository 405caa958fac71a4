use vstd::prelude::*;

verus! {

/// A cardinal direction on the tile grid. `y` grows downward, so `Up`
/// decreases `y` and `Down` increases it.
#[derive(Debug, Clone, Copy, PartialEq, Eq, Hash, Structural)]
pub enum CartesianDirection {
    Right,
    Up,
    Left,
    Down,
}

/// The (dx, dy) step that moves a grid coordinate one cell in direction `d`.
pub open spec fn spec_neighbor_transform(d: CartesianDirection) -> (i8, i8) {
    match d {
        CartesianDirection::Right => (1i8, 0i8),
        CartesianDirection::Up => (0i8, -1i8),
        CartesianDirection::Left => (-1i8, 0i8),
        CartesianDirection::Down => (0i8, 1i8),
    }
}

impl CartesianDirection {
    /// What to add to a coordinate to reach its neighbor in this direction.
    pub fn neighbor_transform(self) -> (r: (i8, i8))
        ensures
            r == spec_neighbor_transform(self),
    {
        match self {
            Self::Right => (1, 0),
            Self::Up => (0, -1),
            Self::Left => (-1, 0),
            Self::Down => (0, 1),
        }
    }
}

/// A quarter-turn rotation sense.
#[derive(Debug, Clone, Copy, PartialEq, Eq, Hash, Structural)]
pub enum SpinDirection {
    Clockwise,
    CounterClockwise,
}

} // verus!
