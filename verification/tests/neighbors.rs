use m_mazing_core::cell::CellItemAvailability::Available;
use m_mazing_core::cell::TileCell;
use m_mazing_core::cell::TileCell::Empty;
use m_mazing_core::cell::TileCell::TimerFlip;
use m_mazing_core::cell::TileCell::Warp;
use m_mazing_core::direction::CartesianDirection;
use m_mazing_core::escalator::EscalatorLocation;
use m_mazing_core::grid_coord::TileGridCoord;
use m_mazing_core::tile::Tile;
use m_mazing_core::wall::WallState;
use m_mazing_core::wall::WallState::Blocked;
use m_mazing_core::wall::WallState::Explore;
use m_mazing_core::wall::WallState::Open;
use m_mazing_core::Pawn::Green;
use m_mazing_core::Pawn::Orange;
use m_mazing_core::Pawn::Purple;
use m_mazing_core::Pawn::Yellow;

fn coord(x: u8, y: u8) -> TileGridCoord {
    TileGridCoord::new(x, y).unwrap()
}

fn esc(x1: u8, y1: u8, x2: u8, y2: u8) -> EscalatorLocation {
    EscalatorLocation([coord(x1, y1), coord(x2, y2)])
}

fn tile_of(
    cells: [[TileCell; 4]; 4],
    horz: [[WallState; 4]; 5],
    vert: [[WallState; 5]; 4],
    escalators: Vec<EscalatorLocation>,
) -> Tile {
    let mut cell_v = Vec::new();
    for row in cells.iter() {
        for c in row.iter() {
            cell_v.push(*c);
        }
    }
    let mut horz_v = Vec::new();
    for row in horz.iter() {
        for w in row.iter() {
            horz_v.push(*w);
        }
    }
    let mut vert_v = Vec::new();
    for row in vert.iter() {
        for w in row.iter() {
            vert_v.push(*w);
        }
    }
    Tile::from_parts(cell_v, horz_v, vert_v, escalators).unwrap()
}

fn tile_1a() -> Tile {
    tile_of(
        [
            [TimerFlip(Available), Empty, Empty, Warp(Purple)],
            [Empty, Empty, Empty, Warp(Yellow)],
            [Warp(Orange), Empty, Empty, Empty],
            [Warp(Green), Empty, Empty, Empty],
        ],
        [
            [Blocked, Blocked, Explore(Orange), Blocked],
            [Blocked, Open, Open, Blocked],
            [Blocked, Open, Open, Blocked],
            [Blocked, Open, Open, Blocked],
            [Blocked, Explore(Yellow), Blocked, Blocked],
        ],
        [
            [Blocked, Open, Open, Open, Blocked],
            [Explore(Purple), Open, Open, Open, Blocked],
            [Blocked, Open, Open, Blocked, Explore(Green)],
            [Blocked, Open, Open, Blocked, Blocked],
        ],
        vec![esc(2, 3, 3, 2)],
    )
}

#[test]
fn mod_neighbor() {
    let tile = tile_1a();
    assert_eq!(tile.cell_immediate_neighbor_coords(coord(0, 0)), vec![coord(1, 0)]);
    assert_eq!(
        tile.cell_immediate_neighbor_coords(coord(1, 0)),
        vec![coord(0, 0), coord(1, 1), coord(2, 0)]
    );
    assert_eq!(tile.cell_immediate_neighbor_coords(coord(3, 3)), vec![]);
    assert_eq!(
        tile.cell_immediate_neighbor_coords(coord(2, 3)),
        vec![coord(1, 3), coord(2, 2), coord(3, 2)]
    );
    assert_eq!(tile.cell_immediate_neighbor_coords(coord(3, 2)), vec![coord(2, 3)]);
}

#[test]
fn cardinal_neighbor_queries() {
    let tile = tile_1a();
    assert_eq!(
        tile.cell_cardinal_neighbor_coords(coord(0, 0), CartesianDirection::Right),
        Some(coord(1, 0))
    );
    assert_eq!(tile.cell_cardinal_neighbor_coords(coord(0, 0), CartesianDirection::Left), None);
    assert_eq!(
        tile.cell_cardinal_neighbor(coord(2, 0), CartesianDirection::Right),
        Some(Warp(Purple))
    );
    assert_eq!(tile.cell_cardinal_neighbor(coord(0, 3), CartesianDirection::Down), None);
}

#[test]
fn wall_and_cell_queries() {
    let tile = tile_1a();
    assert_eq!(tile.cell_value(coord(0, 0)), TimerFlip(Available));
    assert_eq!(tile.cell_value(coord(3, 1)), Warp(Yellow));
    assert_eq!(tile.cell_wall(coord(2, 0), CartesianDirection::Up), Explore(Orange));
    assert_eq!(tile.cell_wall(coord(1, 3), CartesianDirection::Down), Explore(Yellow));
    assert_eq!(tile.cell_wall(coord(0, 1), CartesianDirection::Left), Explore(Purple));
    assert_eq!(tile.cell_wall(coord(1, 1), CartesianDirection::Right), Open);
    assert_eq!(tile.cell_wall(coord(1, 1), CartesianDirection::Down), Open);
    assert_eq!(tile.cell_wall(coord(3, 3), CartesianDirection::Down), Blocked);
}

#[test]
fn outer_edge_directions_cases() {
    let tile = tile_1a();
    assert_eq!(
        tile.cell_outer_edge_directions(coord(0, 0)),
        vec![CartesianDirection::Left, CartesianDirection::Up]
    );
    assert_eq!(tile.cell_outer_edge_directions(coord(1, 1)), vec![]);
    assert_eq!(tile.cell_outer_edge_directions(coord(3, 2)), vec![CartesianDirection::Right]);
    assert_eq!(
        tile.cell_outer_edge_directions(coord(3, 3)),
        vec![CartesianDirection::Right, CartesianDirection::Down]
    );
}

#[test]
fn exit_direction_unique_and_fallback() {
    // a tile whose bottom rim is open only above the (1, 3) entrance: that
    // cell has exactly one open rim wall, every other rim cell has none
    let mut horz = [
        [Blocked, Blocked, Blocked, Blocked],
        [Open, Open, Open, Open],
        [Open, Open, Open, Open],
        [Open, Open, Open, Open],
        [Blocked, Open, Blocked, Blocked],
    ];
    let vert = [
        [Blocked, Open, Open, Open, Blocked],
        [Blocked, Open, Open, Open, Blocked],
        [Blocked, Open, Open, Open, Blocked],
        [Blocked, Open, Open, Open, Blocked],
    ];
    let cells = [[Empty; 4]; 4];
    let tile = tile_of(cells, horz, vert, vec![]);
    // (1, 3): the single open rim wall points down
    assert_eq!(tile.cell_exit_direction(coord(1, 3)), CartesianDirection::Down);
    // (2, 0): no open rim wall: falls back to Right
    assert_eq!(tile.cell_exit_direction(coord(2, 0)), CartesianDirection::Right);
    // an interior cell has no rim at all: falls back to Right
    assert_eq!(tile.cell_exit_direction(coord(1, 1)), CartesianDirection::Right);
    horz[0][0] = Open;
    let tile2 = tile_of(cells, horz, vert, vec![]);
    // (0, 0) of tile2 has two open rim walls? only Up is open (Left blocked):
    assert_eq!(tile2.cell_exit_direction(coord(0, 0)), CartesianDirection::Up);
}
