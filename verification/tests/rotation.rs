use m_mazing_core::cell::CellItemAvailability::Available;
use m_mazing_core::cell::TileCell;
use m_mazing_core::cell::TileCell::Camera;
use m_mazing_core::cell::TileCell::CrystalBall;
use m_mazing_core::cell::TileCell::Empty;
use m_mazing_core::cell::TileCell::FinalExit;
use m_mazing_core::cell::TileCell::Loot;
use m_mazing_core::cell::TileCell::TimerFlip;
use m_mazing_core::cell::TileCell::Warp;
use m_mazing_core::direction::SpinDirection;
use m_mazing_core::escalator::EscalatorLocation;
use m_mazing_core::grid_coord::TileGridCoord;
use m_mazing_core::tile::Tile;
use m_mazing_core::wall::WallState;
use m_mazing_core::wall::WallState::Blocked;
use m_mazing_core::wall::WallState::Open;
use m_mazing_core::Pawn::Green;
use m_mazing_core::Pawn::Orange;
use m_mazing_core::Pawn::Purple;
use m_mazing_core::Pawn::Yellow;

fn coord(x: u8, y: u8) -> TileGridCoord {
    TileGridCoord::new(x, y).unwrap()
}

fn esc(x1: u8, y1: u8, x2: u8, y2: u8) -> EscalatorLocation {
    EscalatorLocation([coord(x1, y1), coord(x2, y2)])
}

fn tile_of(
    cells: [[TileCell; 4]; 4],
    horz: [[WallState; 4]; 5],
    vert: [[WallState; 5]; 4],
    escalators: Vec<EscalatorLocation>,
) -> Tile {
    let mut cell_v = Vec::new();
    for row in cells.iter() {
        for c in row.iter() {
            cell_v.push(*c);
        }
    }
    let mut horz_v = Vec::new();
    for row in horz.iter() {
        for w in row.iter() {
            horz_v.push(*w);
        }
    }
    let mut vert_v = Vec::new();
    for row in vert.iter() {
        for w in row.iter() {
            vert_v.push(*w);
        }
    }
    Tile::from_parts(cell_v, horz_v, vert_v, escalators).unwrap()
}

fn rotate_fixture() -> Tile {
    tile_of(
        [
            [Loot(Yellow), Camera(Available), FinalExit(Purple), Loot(Purple)],
            [FinalExit(Yellow), Warp(Green), Warp(Orange), Loot(Green)],
            [TimerFlip(Available), Warp(Yellow), Warp(Purple), FinalExit(Green)],
            [Loot(Orange), FinalExit(Orange), CrystalBall(Available), Empty],
        ],
        [
            [Blocked, Blocked, Open, Blocked],
            [Blocked, Open, Open, Blocked],
            [Blocked, Open, Open, Blocked],
            [Blocked, Open, Open, Blocked],
            [Blocked, Open, Blocked, Blocked],
        ],
        [
            [Blocked, Open, Open, Open, Blocked],
            [Open, Open, Open, Open, Blocked],
            [Blocked, Open, Open, Blocked, Open],
            [Blocked, Open, Open, Blocked, Blocked],
        ],
        vec![esc(2, 3, 3, 2)],
    )
}

fn rotate_fixture_counterclockwise() -> Tile {
    tile_of(
        [
            [Loot(Purple), Loot(Green), FinalExit(Green), Empty],
            [FinalExit(Purple), Warp(Orange), Warp(Purple), CrystalBall(Available)],
            [Camera(Available), Warp(Green), Warp(Yellow), FinalExit(Orange)],
            [Loot(Yellow), FinalExit(Yellow), TimerFlip(Available), Loot(Orange)],
        ],
        [
            [Blocked, Blocked, Open, Blocked],
            [Open, Open, Blocked, Blocked],
            [Open, Open, Open, Open],
            [Open, Open, Open, Open],
            [Blocked, Open, Blocked, Blocked],
        ],
        [
            [Blocked, Blocked, Blocked, Blocked, Blocked],
            [Open, Open, Open, Open, Blocked],
            [Blocked, Open, Open, Open, Open],
            [Blocked, Blocked, Blocked, Blocked, Blocked],
        ],
        vec![esc(3, 1, 2, 0)],
    )
}

fn rotate_fixture_clockwise() -> Tile {
    tile_of(
        [
            [Loot(Orange), TimerFlip(Available), FinalExit(Yellow), Loot(Yellow)],
            [FinalExit(Orange), Warp(Yellow), Warp(Green), Camera(Available)],
            [CrystalBall(Available), Warp(Purple), Warp(Orange), FinalExit(Purple)],
            [Empty, FinalExit(Green), Loot(Green), Loot(Purple)],
        ],
        [
            [Blocked, Blocked, Open, Blocked],
            [Open, Open, Open, Open],
            [Open, Open, Open, Open],
            [Blocked, Blocked, Open, Open],
            [Blocked, Open, Blocked, Blocked],
        ],
        [
            [Blocked, Blocked, Blocked, Blocked, Blocked],
            [Open, Open, Open, Open, Blocked],
            [Blocked, Open, Open, Open, Open],
            [Blocked, Blocked, Blocked, Blocked, Blocked],
        ],
        vec![esc(0, 2, 1, 3)],
    )
}

#[test]
fn tile_rotate() {
    let tile = rotate_fixture();
    let tile_counterclockwise = rotate_fixture_counterclockwise();
    let tile_clockwise = rotate_fixture_clockwise();

    {
        let mut actual_counterclockwise = tile.clone();
        actual_counterclockwise.rotate(SpinDirection::CounterClockwise);
        assert_eq!(actual_counterclockwise, tile_counterclockwise);
    }

    {
        let mut actual_clockwise = tile.clone();
        actual_clockwise.rotate(SpinDirection::Clockwise);
        assert_eq!(actual_clockwise, tile_clockwise);
    }

    {
        let mut revert1 = tile.clone();
        revert1.rotate(SpinDirection::Clockwise);
        revert1.rotate(SpinDirection::CounterClockwise);
        assert_eq!(revert1, tile);

        revert1.rotate(SpinDirection::CounterClockwise);
        revert1.rotate(SpinDirection::Clockwise);
        assert_eq!(revert1, tile);

        revert1.rotate(SpinDirection::CounterClockwise);
        revert1.rotate(SpinDirection::CounterClockwise);
        revert1.rotate(SpinDirection::CounterClockwise);
        revert1.rotate(SpinDirection::CounterClockwise);
        assert_eq!(revert1, tile);

        revert1.rotate(SpinDirection::Clockwise);
        revert1.rotate(SpinDirection::Clockwise);
        revert1.rotate(SpinDirection::Clockwise);
        revert1.rotate(SpinDirection::Clockwise);
        assert_eq!(revert1, tile);
    }
}

#[test]
fn mod_rotate() {
    let tile = rotate_fixture();
    let tile_counterclockwise = rotate_fixture_counterclockwise();
    let tile_clockwise = rotate_fixture_clockwise();

    {
        let mut actual_counterclockwise = tile.clone();
        actual_counterclockwise.rotate(SpinDirection::CounterClockwise);
        assert_eq!(actual_counterclockwise, tile_counterclockwise);
    }

    {
        let mut actual_clockwise = tile.clone();
        actual_clockwise.rotate(SpinDirection::Clockwise);
        assert_eq!(actual_clockwise, tile_clockwise);
    }

    {
        let mut revert1 = tile.clone();
        revert1.rotate(SpinDirection::Clockwise);
        revert1.rotate(SpinDirection::CounterClockwise);
        assert_eq!(revert1, tile);

        revert1.rotate(SpinDirection::CounterClockwise);
        revert1.rotate(SpinDirection::Clockwise);
        assert_eq!(revert1, tile);

        revert1.rotate(SpinDirection::CounterClockwise);
        revert1.rotate(SpinDirection::CounterClockwise);
        revert1.rotate(SpinDirection::CounterClockwise);
        revert1.rotate(SpinDirection::CounterClockwise);
        assert_eq!(revert1, tile);

        revert1.rotate(SpinDirection::Clockwise);
        revert1.rotate(SpinDirection::Clockwise);
        revert1.rotate(SpinDirection::Clockwise);
        revert1.rotate(SpinDirection::Clockwise);
        assert_eq!(revert1, tile);
    }
}

#[test]
fn rotate_2d_array_quarter_turn() {
    // a 2 x 3 matrix turned clockwise becomes the 3 x 2 matrix whose first
    // row is the old first column bottom-up
    let arr: Vec<u8> = vec![1, 2, 3, 4, 5, 6];
    let mut out: Vec<u8> = vec![0; 6];
    m_mazing_core::rotation::rotate_2d_array(&arr, 2, 3, &mut out, SpinDirection::Clockwise);
    assert_eq!(out, vec![4, 1, 5, 2, 6, 3]);
    let mut back: Vec<u8> = vec![0; 6];
    m_mazing_core::rotation::rotate_2d_array(&out, 3, 2, &mut back, SpinDirection::CounterClockwise);
    assert_eq!(back, arr);
}
