use m_mazing_core::cell::CellItemAvailability::Available;
use m_mazing_core::cell::TileCell;
use m_mazing_core::cell::TileCell::Camera;
use m_mazing_core::cell::TileCell::Empty;
use m_mazing_core::cell::TileCell::FinalExit;
use m_mazing_core::cell::TileCell::TimerFlip;
use m_mazing_core::cell::TileCell::Warp;
use m_mazing_core::direction::CartesianDirection;
use m_mazing_core::escalator::EscalatorLocation;
use m_mazing_core::grid_coord::TileGridCoord;
use m_mazing_core::tile::Tile;
use m_mazing_core::tileset::tileset_from_str;
use m_mazing_core::tileset::TileParsingError;
use m_mazing_core::wall::WallState;
use m_mazing_core::wall::WallState::Blocked;
use m_mazing_core::wall::WallState::Entrance;
use m_mazing_core::wall::WallState::Explore;
use m_mazing_core::wall::WallState::Open;
use m_mazing_core::Pawn::Green;
use m_mazing_core::Pawn::Orange;
use m_mazing_core::Pawn::Purple;
use m_mazing_core::Pawn::Yellow;

fn coord(x: u8, y: u8) -> TileGridCoord {
    TileGridCoord::new(x, y).unwrap()
}

fn esc(x1: u8, y1: u8, x2: u8, y2: u8) -> EscalatorLocation {
    EscalatorLocation([coord(x1, y1), coord(x2, y2)])
}

fn tile_of(
    cells: [[TileCell; 4]; 4],
    horz: [[WallState; 4]; 5],
    vert: [[WallState; 5]; 4],
    escalators: Vec<EscalatorLocation>,
) -> Tile {
    let mut cell_v = Vec::new();
    for row in cells.iter() {
        for c in row.iter() {
            cell_v.push(*c);
        }
    }
    let mut horz_v = Vec::new();
    for row in horz.iter() {
        for w in row.iter() {
            horz_v.push(*w);
        }
    }
    let mut vert_v = Vec::new();
    for row in vert.iter() {
        for w in row.iter() {
            vert_v.push(*w);
        }
    }
    Tile::from_parts(cell_v, horz_v, vert_v, escalators).unwrap()
}

const TILE1_STR: &str = "
+-+-+7+-+
|  1   c|
+ +-+-+ +
|   |t  |
+-+ + +-+
|   |   |
+ +-+-+ +
|O|     |
+ +^+ + +
";

fn tile1() -> Tile {
    tile_of(
        [
            [Empty, Warp(Green), Empty, Camera(Available)],
            [Empty, Empty, TimerFlip(Available), Empty],
            [Empty, Empty, Empty, Empty],
            [FinalExit(Orange), Empty, Empty, Empty],
        ],
        [
            [Blocked, Blocked, Explore(Yellow), Blocked],
            [Open, Blocked, Blocked, Open],
            [Blocked, Open, Open, Blocked],
            [Open, Blocked, Blocked, Open],
            [Open, Entrance, Open, Open],
        ],
        [
            [Blocked, Open, Open, Open, Blocked],
            [Blocked, Open, Blocked, Open, Blocked],
            [Blocked, Open, Blocked, Open, Blocked],
            [Blocked, Blocked, Open, Open, Blocked],
        ],
        vec![],
    )
}

const TILE2_STR: &str = "
+-+-+6+-+
|t     4|
+-+ + +-+
8      3|
+-+ + +-+
|2    | 5
+-+ + +-+
|1    | |
+-+7+-+-+
";

fn tile2() -> Tile {
    tile_of(
        [
            [TimerFlip(Available), Empty, Empty, Warp(Purple)],
            [Empty, Empty, Empty, Warp(Yellow)],
            [Warp(Orange), Empty, Empty, Empty],
            [Warp(Green), Empty, Empty, Empty],
        ],
        [
            [Blocked, Blocked, Explore(Orange), Blocked],
            [Blocked, Open, Open, Blocked],
            [Blocked, Open, Open, Blocked],
            [Blocked, Open, Open, Blocked],
            [Blocked, Explore(Yellow), Blocked, Blocked],
        ],
        [
            [Blocked, Open, Open, Open, Blocked],
            [Explore(Purple), Open, Open, Open, Blocked],
            [Blocked, Open, Open, Blocked, Explore(Green)],
            [Blocked, Open, Open, Blocked, Blocked],
        ],
        vec![],
    )
}

const TILE3_STR: &str = "
+-+-+6+-+
|t     4|
+-+ + +-+
8      3|
+-+ + +-+
|2    | 5
+-+ + +-+
|1    | |
+-+7+-+-+
E: 01-23, 00-33, 33-02
";

fn tile3() -> Tile {
    tile_of(
        [
            [TimerFlip(Available), Empty, Empty, Warp(Purple)],
            [Empty, Empty, Empty, Warp(Yellow)],
            [Warp(Orange), Empty, Empty, Empty],
            [Warp(Green), Empty, Empty, Empty],
        ],
        [
            [Blocked, Blocked, Explore(Orange), Blocked],
            [Blocked, Open, Open, Blocked],
            [Blocked, Open, Open, Blocked],
            [Blocked, Open, Open, Blocked],
            [Blocked, Explore(Yellow), Blocked, Blocked],
        ],
        [
            [Blocked, Open, Open, Open, Blocked],
            [Explore(Purple), Open, Open, Open, Blocked],
            [Blocked, Open, Open, Blocked, Explore(Green)],
            [Blocked, Open, Open, Blocked, Blocked],
        ],
        vec![esc(0, 1, 2, 3), esc(0, 0, 3, 3), esc(3, 3, 0, 2)],
    )
}

const TILE_MISSING_NAME: &str = "
+-+-+7+-+
|  1   c|
+ +-+-+ +
|   |t  |
+-+ + +-+
|   |   |
+ +-+-+ +
|O|     |
+ +^+ + +
";

#[test]
fn tileset_tile_simple() {
    assert_eq!(TILE1_STR.parse::<Tile>(), Ok(tile1()));
    assert_eq!(TILE2_STR.parse::<Tile>(), Ok(tile2()));

    let tileset_1 = format!("@tile1\n{}", TILE1_STR);
    assert_eq!(tileset_from_str(&tileset_1), Ok(vec![("tile1".to_string(), tile1())]));

    let tileset_12 = format!("@tile1\n{}\n@tile2\n{}", TILE1_STR, TILE2_STR);
    assert_eq!(
        tileset_from_str(&tileset_12),
        Ok(vec![("tile1".to_string(), tile1()), ("tile2".to_string(), tile2())]),
    );

    let tileset_31 = format!("@tile3\n{}\n@tile1\n{}", TILE3_STR, TILE1_STR);
    assert_eq!(
        tileset_from_str(&tileset_31),
        Ok(vec![("tile3".to_string(), tile3()), ("tile1".to_string(), tile1())]),
    );
}

#[test]
fn tileset_tile_negative() {
    assert_eq!(tileset_from_str(""), Ok(vec![]));
    let actual = tileset_from_str(TILE_MISSING_NAME);
    assert!(
        matches!(actual, Err(TileParsingError::InvalidNameLeader { .. })),
        "actual = {:?}",
        actual
    );
}

#[test]
fn fail_elevators() {
    let elevator_lines = [
        "foo:",
        "E::",
        "E: 01-23, 00-33z",
        "E: 01-23, 00-34",
        "E: 01-23, 00-3s",
    ];
    for el in elevator_lines {
        let tile_str = format!("{}\n{}", TILE1_STR.trim(), el);
        let actual = tile_str.parse::<Tile>();
        assert!(
            matches!(actual, Err(TileParsingError::InvalidEscalator { .. })),
            "Did not get expected Err for tile_str: {}; actual={:?}",
            tile_str,
            actual
        );
    }
}

#[test]
fn parse_example_exact() {
    // the documented example tile text, token by token
    let tile = TILE1_STR.parse::<Tile>().unwrap();
    assert_eq!(tile.cell_value(coord(1, 0)), Warp(Green));
    assert_eq!(tile.cell_value(coord(3, 0)), Camera(Available));
    assert_eq!(tile.cell_value(coord(2, 1)), TimerFlip(Available));
    assert_eq!(tile.cell_value(coord(0, 3)), FinalExit(Orange));
    assert_eq!(tile.cell_wall(coord(2, 0), CartesianDirection::Up), Explore(Yellow));
    assert_eq!(tile.cell_wall(coord(1, 3), CartesianDirection::Down), Entrance);
    assert_eq!(tile.cell_wall(coord(0, 0), CartesianDirection::Left), Blocked);
    assert_eq!(tile.cell_wall(coord(0, 0), CartesianDirection::Down), Open);
    assert_eq!(tile.escalators().len(), 0);
}

#[test]
fn escalator_parse() {
    // "E: 01-23, 00-33, 33-02" parses into exactly these pairs, in order
    let tile = TILE3_STR.parse::<Tile>().unwrap();
    let escalators = tile.escalators();
    assert_eq!(escalators.len(), 3);
    assert_eq!(escalators[0], esc(0, 1, 2, 3));
    assert_eq!(escalators[1], esc(0, 0, 3, 3));
    assert_eq!(escalators[2], esc(3, 3, 0, 2));
}

#[test]
fn too_many_escalators() {
    let tile_str = format!("{}\nE: 01-23, 00-33, 33-02, 10-21, 30-12", TILE1_STR.trim());
    let actual = tile_str.parse::<Tile>();
    assert!(matches!(actual, Err(TileParsingError::InvalidEscalator { .. })));
}

#[test]
fn degenerate_escalator_rejected() {
    let tile_str = format!("{}\nE: 00-00", TILE1_STR.trim());
    let actual = tile_str.parse::<Tile>();
    assert!(matches!(actual, Err(TileParsingError::InvalidEscalator { .. })));
}

#[test]
fn error_incomplete_tile() {
    assert!(matches!(
        "".parse::<Tile>(),
        Err(TileParsingError::IncompleteTile { line_number: 0 })
    ));
    assert!(matches!(
        "+-+-+7+-+".parse::<Tile>(),
        Err(TileParsingError::IncompleteTile { .. })
    ));
    let actual = tileset_from_str("@tile1\n+-+-+7+-+\n|  1   c|");
    assert!(matches!(actual, Err(TileParsingError::IncompleteTile { .. })));
}

#[test]
fn error_incomplete_line() {
    let actual = "+-+-+7+-".parse::<Tile>();
    assert!(matches!(actual, Err(TileParsingError::IncompleteLine { .. })));
}

#[test]
fn error_item_parse() {
    let actual = "x-+-+7+-+".parse::<Tile>();
    match actual {
        Err(TileParsingError::ItemParse { col_number, char, name, .. }) => {
            assert_eq!(col_number, 0);
            assert_eq!(char, 'x');
            assert_eq!(name, "Placeholder");
        },
        other => panic!("expected ItemParse, got {:?}", other),
    }
    let actual2 = "+z+-+7+-+".parse::<Tile>();
    match actual2 {
        Err(TileParsingError::ItemParse { col_number, char, name, allowed, .. }) => {
            assert_eq!(col_number, 1);
            assert_eq!(char, 'z');
            assert_eq!(name, "Wall");
            assert_eq!(allowed, " -|^5678");
        },
        other => panic!("expected ItemParse, got {:?}", other),
    }
}

#[test]
fn error_row_has_extra() {
    let actual = "+-+-+7+-+x".parse::<Tile>();
    match actual {
        Err(TileParsingError::RowHasExtra { col_number, .. }) => {
            assert_eq!(col_number, 9);
        },
        other => panic!("expected RowHasExtra, got {:?}", other),
    }
}

#[test]
fn error_invalid_tile_name() {
    let input = format!("@caf\u{e9}\n{}", TILE1_STR.trim());
    let actual = tileset_from_str(&input);
    assert!(matches!(actual, Err(TileParsingError::InvalidTileName { .. })));
}

#[test]
fn comment_and_blank_lines_before_tile() {
    let input = format!("# a comment\n\n@tile1\n# another\n\n{}", TILE1_STR.trim());
    assert_eq!(tileset_from_str(&input), Ok(vec![("tile1".to_string(), tile1())]));
}
