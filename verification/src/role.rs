use vstd::prelude::*;

use crate::action::BoardAction;
use crate::direction::CartesianDirection;

verus! {

/// The action sets dealt to the players' roles, by player count: defined
/// for one and two players.
pub open spec fn spec_game_roles(num_players: u8) -> Option<Seq<Seq<BoardAction>>> {
    if num_players == 1 {
        Some(
            seq![
                seq![
                    BoardAction::Warp,
                    BoardAction::Explore,
                    BoardAction::Escalator,
                    BoardAction::Slide(CartesianDirection::Left),
                    BoardAction::Slide(CartesianDirection::Up),
                    BoardAction::Slide(CartesianDirection::Down),
                    BoardAction::Slide(CartesianDirection::Right),
                ],
            ],
        )
    } else if num_players == 2 {
        Some(
            seq![
                seq![
                    BoardAction::Escalator,
                    BoardAction::Explore,
                    BoardAction::Slide(CartesianDirection::Down),
                    BoardAction::Slide(CartesianDirection::Left),
                ],
                seq![
                    BoardAction::Warp,
                    BoardAction::Slide(CartesianDirection::Up),
                    BoardAction::Slide(CartesianDirection::Right),
                ],
            ],
        )
    } else {
        None
    }
}

/// The per-role action sets for a game of `num_players`, or `None` when no
/// role table exists for that count.
pub fn game_roles(num_players: u8) -> (r: Option<Vec<Vec<BoardAction>>>)
    ensures
        match spec_game_roles(num_players) {
            None => r is None,
            Some(s) => {
                &&& r matches Some(v)
                &&& v@.len() == s.len()
                &&& forall|i: int| 0 <= i < s.len() ==> (#[trigger] v@[i])@ == s[i]
            },
        },
{
    if num_players == 1 {
        let mut role: Vec<BoardAction> = Vec::new();
        role.push(BoardAction::Warp);
        role.push(BoardAction::Explore);
        role.push(BoardAction::Escalator);
        role.push(BoardAction::Slide(CartesianDirection::Left));
        role.push(BoardAction::Slide(CartesianDirection::Up));
        role.push(BoardAction::Slide(CartesianDirection::Down));
        role.push(BoardAction::Slide(CartesianDirection::Right));
        proof {
            assert(role@ =~= spec_game_roles(num_players).unwrap()[0]);
        }
        let mut roles: Vec<Vec<BoardAction>> = Vec::new();
        roles.push(role);
        Some(roles)
    } else if num_players == 2 {
        let mut role0: Vec<BoardAction> = Vec::new();
        role0.push(BoardAction::Escalator);
        role0.push(BoardAction::Explore);
        role0.push(BoardAction::Slide(CartesianDirection::Down));
        role0.push(BoardAction::Slide(CartesianDirection::Left));
        let mut role1: Vec<BoardAction> = Vec::new();
        role1.push(BoardAction::Warp);
        role1.push(BoardAction::Slide(CartesianDirection::Up));
        role1.push(BoardAction::Slide(CartesianDirection::Right));
        proof {
            assert(role0@ =~= spec_game_roles(num_players).unwrap()[0]);
            assert(role1@ =~= spec_game_roles(num_players).unwrap()[1]);
        }
        let mut roles: Vec<Vec<BoardAction>> = Vec::new();
        roles.push(role0);
        roles.push(role1);
        Some(roles)
    } else {
        None
    }
}

} // verus!
