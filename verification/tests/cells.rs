use m_mazing_core::action::BoardAction;
use m_mazing_core::cell::CellItemAvailability::Available;
use m_mazing_core::cell::CellItemAvailability::Used;
use m_mazing_core::cell::TileCell;
use m_mazing_core::cell::TileCell::Camera;
use m_mazing_core::cell::TileCell::CrystalBall;
use m_mazing_core::cell::TileCell::Empty;
use m_mazing_core::cell::TileCell::FinalExit;
use m_mazing_core::cell::TileCell::Loot;
use m_mazing_core::cell::TileCell::TimerFlip;
use m_mazing_core::cell::TileCell::Warp;
use m_mazing_core::direction::CartesianDirection;
use m_mazing_core::grid_coord::TileGridCoord;
use m_mazing_core::role::game_roles;
use m_mazing_core::tile::Tile;
use m_mazing_core::wall::WallState;
use m_mazing_core::wall::WallState::Open;
use m_mazing_core::GameState;
use m_mazing_core::Pawn::Green;
use m_mazing_core::Pawn::Orange;
use m_mazing_core::Pawn::Purple;
use m_mazing_core::Pawn::Yellow;

fn coord(x: u8, y: u8) -> TileGridCoord {
    TileGridCoord::new(x, y).unwrap()
}

#[test]
fn set_availability_idempotent() {
    // marking a stateful cell used twice leaves it used, not toggled back
    let mut cell = TimerFlip(Available);
    cell.set_availability(Used);
    assert_eq!(cell, TimerFlip(Used));
    cell.set_availability(Used);
    assert_eq!(cell, TimerFlip(Used));

    let mut ball = CrystalBall(Available);
    ball.set_availability(Used);
    ball.set_availability(Used);
    assert_eq!(ball, CrystalBall(Used));

    // a stateless cell is left untouched
    let mut empty = Empty;
    empty.set_availability(Used);
    assert_eq!(empty, Empty);
    let mut warp = Warp(Green);
    warp.set_availability(Used);
    assert_eq!(warp, Warp(Green));
    let mut exit = FinalExit(Purple);
    exit.set_availability(Available);
    assert_eq!(exit, FinalExit(Purple));
}

#[test]
fn is_used_cases() {
    assert!(TimerFlip(Used).is_used());
    assert!(Camera(Used).is_used());
    assert!(CrystalBall(Used).is_used());
    assert!(!TimerFlip(Available).is_used());
    assert!(!Empty.is_used());
    assert!(!Loot(Yellow).is_used());
}

#[test]
fn cell_parse_alphabet() {
    assert_eq!(TileCell::parse(' '), Some(Empty));
    assert_eq!(TileCell::parse('1'), Some(Warp(Green)));
    assert_eq!(TileCell::parse('2'), Some(Warp(Orange)));
    assert_eq!(TileCell::parse('3'), Some(Warp(Yellow)));
    assert_eq!(TileCell::parse('4'), Some(Warp(Purple)));
    assert_eq!(TileCell::parse('g'), Some(Loot(Green)));
    assert_eq!(TileCell::parse('P'), Some(FinalExit(Purple)));
    assert_eq!(TileCell::parse('t'), Some(TimerFlip(Available)));
    assert_eq!(TileCell::parse('c'), Some(Camera(Available)));
    assert_eq!(TileCell::parse('b'), Some(CrystalBall(Available)));
    assert_eq!(TileCell::parse('x'), None);
    assert_eq!(TileCell::parse('5'), None);
}

#[test]
fn wall_parse_alphabet() {
    assert_eq!(WallState::parse('-'), Some(WallState::Blocked));
    assert_eq!(WallState::parse('|'), Some(WallState::Blocked));
    assert_eq!(WallState::parse(' '), Some(WallState::Open));
    assert_eq!(WallState::parse('5'), Some(WallState::Explore(Green)));
    assert_eq!(WallState::parse('6'), Some(WallState::Explore(Orange)));
    assert_eq!(WallState::parse('7'), Some(WallState::Explore(Yellow)));
    assert_eq!(WallState::parse('8'), Some(WallState::Explore(Purple)));
    assert_eq!(WallState::parse('^'), Some(WallState::Entrance));
    assert_eq!(WallState::parse('+'), None);
    assert_eq!(WallState::parse('1'), None);
}

#[test]
fn default_tile_is_all_open() {
    let tile = Tile::default();
    for y in 0..4u8 {
        for x in 0..4u8 {
            assert_eq!(tile.cell_value(coord(x, y)), Empty);
            assert_eq!(tile.cell_wall(coord(x, y), CartesianDirection::Up), Open);
            assert_eq!(tile.cell_wall(coord(x, y), CartesianDirection::Left), Open);
        }
    }
    assert_eq!(tile.escalators().len(), 0);
    // every rim wall is open, so all four entrances admit and every cell is
    // reachable
    assert_eq!(tile.reachable_coords(), vec![vec![true; 4]; 4]);
}

#[test]
fn set_cell_availability_on_tile() {
    let mut tile = Tile::default();
    let mut cells = Vec::new();
    for c in tile.cell_grid().iter() {
        cells.push(*c);
    }
    cells[5] = Camera(Available);
    let mut horz = Vec::new();
    for w in tile.horz_walls().iter() {
        horz.push(*w);
    }
    let mut vert = Vec::new();
    for w in tile.vert_walls().iter() {
        vert.push(*w);
    }
    tile = Tile::from_parts(cells, horz, vert, vec![]).unwrap();
    tile.set_cell_availability(coord(1, 1), Used);
    assert_eq!(tile.cell_value(coord(1, 1)), Camera(Used));
    tile.set_cell_availability(coord(0, 0), Used);
    assert_eq!(tile.cell_value(coord(0, 0)), Empty);
}

#[test]
fn game_roles_by_player_count() {
    assert!(game_roles(0).is_none());
    let one = game_roles(1).unwrap();
    assert_eq!(one.len(), 1);
    assert_eq!(
        one[0],
        vec![
            BoardAction::Warp,
            BoardAction::Explore,
            BoardAction::Escalator,
            BoardAction::Slide(CartesianDirection::Left),
            BoardAction::Slide(CartesianDirection::Up),
            BoardAction::Slide(CartesianDirection::Down),
            BoardAction::Slide(CartesianDirection::Right),
        ]
    );
    let two = game_roles(2).unwrap();
    assert_eq!(two.len(), 2);
    assert_eq!(
        two[0],
        vec![
            BoardAction::Escalator,
            BoardAction::Explore,
            BoardAction::Slide(CartesianDirection::Down),
            BoardAction::Slide(CartesianDirection::Left),
        ]
    );
    assert_eq!(
        two[1],
        vec![
            BoardAction::Warp,
            BoardAction::Slide(CartesianDirection::Up),
            BoardAction::Slide(CartesianDirection::Right),
        ]
    );
    assert!(game_roles(3).is_none());
}

#[test]
fn game_state_new() {
    assert!(GameState::new(0).is_none());
    let g = GameState::new(2).unwrap();
    assert_eq!(g.num_players(), 2);
    assert_eq!(g.roles.len(), 2);
    assert!(GameState::new(5).is_none());
}

#[test]
fn neighbor_transform_steps() {
    assert_eq!(CartesianDirection::Right.neighbor_transform(), (1, 0));
    assert_eq!(CartesianDirection::Up.neighbor_transform(), (0, -1));
    assert_eq!(CartesianDirection::Left.neighbor_transform(), (-1, 0));
    assert_eq!(CartesianDirection::Down.neighbor_transform(), (0, 1));
}
