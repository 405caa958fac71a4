use m_mazing_core::cell::CellItemAvailability::Available;
use m_mazing_core::cell::TileCell;
use m_mazing_core::cell::TileCell::Empty;
use m_mazing_core::cell::TileCell::FinalExit;
use m_mazing_core::cell::TileCell::TimerFlip;
use m_mazing_core::cell::TileCell::Warp;
use m_mazing_core::escalator::EscalatorLocation;
use m_mazing_core::grid_coord::TileGridCoord;
use m_mazing_core::tile::Tile;
use m_mazing_core::wall::WallState;
use m_mazing_core::wall::WallState::Blocked;
use m_mazing_core::wall::WallState::Entrance;
use m_mazing_core::wall::WallState::Explore;
use m_mazing_core::wall::WallState::Open;
use m_mazing_core::Pawn::Green;
use m_mazing_core::Pawn::Orange;
use m_mazing_core::Pawn::Purple;
use m_mazing_core::Pawn::Yellow;

fn coord(x: u8, y: u8) -> TileGridCoord {
    TileGridCoord::new(x, y).unwrap()
}

fn esc(x1: u8, y1: u8, x2: u8, y2: u8) -> EscalatorLocation {
    EscalatorLocation([coord(x1, y1), coord(x2, y2)])
}

fn tile_of(
    cells: [[TileCell; 4]; 4],
    horz: [[WallState; 4]; 5],
    vert: [[WallState; 5]; 4],
    escalators: Vec<EscalatorLocation>,
) -> Tile {
    let mut cell_v = Vec::new();
    for row in cells.iter() {
        for c in row.iter() {
            cell_v.push(*c);
        }
    }
    let mut horz_v = Vec::new();
    for row in horz.iter() {
        for w in row.iter() {
            horz_v.push(*w);
        }
    }
    let mut vert_v = Vec::new();
    for row in vert.iter() {
        for w in row.iter() {
            vert_v.push(*w);
        }
    }
    Tile::from_parts(cell_v, horz_v, vert_v, escalators).unwrap()
}

fn tile_1a() -> Tile {
    tile_of(
        [
            [TimerFlip(Available), Empty, Empty, Warp(Purple)],
            [Empty, Empty, Empty, Warp(Yellow)],
            [Warp(Orange), Empty, Empty, Empty],
            [Warp(Green), Empty, Empty, Empty],
        ],
        [
            [Blocked, Blocked, Explore(Orange), Blocked],
            [Blocked, Open, Open, Blocked],
            [Blocked, Open, Open, Blocked],
            [Blocked, Open, Open, Blocked],
            [Blocked, Explore(Yellow), Blocked, Blocked],
        ],
        [
            [Blocked, Open, Open, Open, Blocked],
            [Explore(Purple), Open, Open, Open, Blocked],
            [Blocked, Open, Open, Blocked, Explore(Green)],
            [Blocked, Open, Open, Blocked, Blocked],
        ],
        vec![esc(2, 3, 3, 2)],
    )
}

fn tile_2() -> Tile {
    tile_of(
        [
            [FinalExit(Purple), Empty, Empty, Empty],
            [Empty, Empty, Empty, Warp(Purple)],
            [Empty, Empty, Empty, Empty],
            [Empty, Empty, Empty, Warp(Green)],
        ],
        [
            [Open, Blocked, Blocked, Blocked],
            [Open, Open, Open, Blocked],
            [Blocked, Open, Blocked, Open],
            [Open, Blocked, Open, Blocked],
            [Blocked, Explore(Orange), Blocked, Blocked],
        ],
        [
            [Blocked, Blocked, Open, Open, Blocked],
            [Blocked, Blocked, Open, Blocked, Blocked],
            [Blocked, Blocked, Blocked, Open, Entrance],
            [Blocked, Blocked, Open, Open, Blocked],
        ],
        vec![esc(0, 1, 1, 3)],
    )
}

#[test]
fn start_coords() {
    assert_eq!(
        tile_1a().reachable_coords_starting(),
        vec![coord(0, 1), coord(1, 3), coord(2, 0), coord(3, 2)]
    );

    assert_eq!(tile_2().reachable_coords_starting(), vec![coord(1, 3), coord(3, 2)]);
}

#[test]
fn reachable_coords() {
    assert_eq!(
        tile_1a().reachable_coords(),
        vec![
            vec![true, true, true, true],
            vec![true, true, true, true],
            vec![true, true, true, true],
            vec![true, true, true, false],
        ]
    );

    assert_eq!(
        tile_2().reachable_coords(),
        vec![
            vec![true, false, false, false],
            vec![true, false, false, true],
            vec![false, false, true, true],
            vec![false, true, true, true],
        ]
    );
}

#[test]
fn reachable_without_escalator_bridge() {
    // the second fixture's escalator joins (0,1) to (1,3); without it the
    // whole left region behind blocked walls becomes unreachable
    let bridged = tile_2();
    let mut cell_v = Vec::new();
    for c in bridged.cell_grid().iter() {
        cell_v.push(*c);
    }
    let mut horz_v = Vec::new();
    for w in bridged.horz_walls().iter() {
        horz_v.push(*w);
    }
    let mut vert_v = Vec::new();
    for w in bridged.vert_walls().iter() {
        vert_v.push(*w);
    }
    let unbridged = Tile::from_parts(cell_v, horz_v, vert_v, vec![]).unwrap();
    assert_eq!(
        unbridged.reachable_coords(),
        vec![
            vec![false, false, false, false],
            vec![false, false, false, true],
            vec![false, false, true, true],
            vec![false, true, true, true],
        ]
    );
}
