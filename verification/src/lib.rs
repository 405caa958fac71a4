use vstd::prelude::*;

pub mod action;
pub mod cell;
pub mod direction;
pub mod esc_vec;
pub mod escalator;
pub mod grid_coord;
pub mod lines;
pub mod reach;
pub mod role;
pub mod rotation;
pub mod scenario;
pub mod tile;
pub mod tileset;
pub mod wall;

verus! {

/// One of the four pawn colours used throughout the game.
#[derive(Debug, Clone, Copy, PartialEq, Eq, Structural)]
pub enum Pawn {
    Green,
    Orange,
    Yellow,
    Purple,
}

/// An opaque identifier for a player at the table.
#[derive(Debug, Clone, Copy, PartialEq, Eq, Structural)]
pub struct PlayerId(pub u32);

/// A running game: how many players sit at the table and the action sets
/// dealt to their roles.
#[derive(Debug)]
pub struct GameState {
    pub num_players: u8,
    pub roles: Vec<Vec<crate::action::BoardAction>>,
}

impl GameState {
    /// Sets up a game for `num_players`, when a role table exists for that
    /// count.
    pub fn new(num_players: u8) -> (r: Option<GameState>)
        ensures
            crate::role::spec_game_roles(num_players) is Some <==> r is Some,
            r matches Some(g) ==> {
                &&& g.num_players == num_players
                &&& g.roles@.len() == crate::role::spec_game_roles(num_players).unwrap().len()
                &&& forall|i: int|
                    0 <= i < g.roles@.len() ==> (#[trigger] g.roles@[i])@
                        == crate::role::spec_game_roles(num_players).unwrap()[i]
            },
    {
        let roles = crate::role::game_roles(num_players)?;
        Some(GameState { num_players, roles })
    }

    pub fn num_players(&self) -> (r: u8)
        ensures
            r == self.num_players,
    {
        self.num_players
    }
}

} // verus!

