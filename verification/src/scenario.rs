use vstd::prelude::*;

use crate::tile::Tile;

verus! {

/// How the pawns must escape the board.
#[derive(Debug, Clone, Copy, PartialEq, Eq, Structural)]
pub enum ScenarioEscape {
    /// All pawns must escape via the purple exit.
    PurpleOnly,
    /// Each pawn must escape through its own colour.
    EachColor,
}

/// A game setup: the escape rule, the tile the pawns start on, and the
/// names of the tiles still to be explored.
#[derive(Debug)]
pub struct Scenario {
    pub escape: ScenarioEscape,
    pub start_tile: Tile,
    pub explore_tile_names: Vec<String>,
}

} // verus!
