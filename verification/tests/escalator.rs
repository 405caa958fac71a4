use m_mazing_core::direction::SpinDirection;
use m_mazing_core::escalator::EscalatorLocation;
use m_mazing_core::grid_coord::TileGridCoord;

fn coord(x: u8, y: u8) -> TileGridCoord {
    TileGridCoord::new(x, y).unwrap()
}

#[test]
fn escalator_neighbor() {
    let a = coord(0, 1);
    let b = coord(2, 3);
    let loc = EscalatorLocation([a, b]);

    assert_eq!(loc.coord_neighbor(a), Some(b));
    assert_eq!(loc.coord_neighbor(b), Some(a));
    assert_eq!(loc.coord_neighbor(coord(3, 3)), None);
}

#[test]
fn escalator_rotate_endpoints() {
    let mut loc = EscalatorLocation([coord(2, 3), coord(3, 2)]);
    loc.rotate(SpinDirection::Clockwise);
    assert_eq!(loc.0[0], coord(0, 2));
    assert_eq!(loc.0[1], coord(1, 3));
    loc.rotate(SpinDirection::CounterClockwise);
    assert_eq!(loc.0[0], coord(2, 3));
    assert_eq!(loc.0[1], coord(3, 2));
}

#[test]
fn grid_coord_new_bounds() {
    assert!(TileGridCoord::new(0, 0).is_some());
    assert!(TileGridCoord::new(3, 3).is_some());
    assert!(TileGridCoord::new(4, 0).is_none());
    assert!(TileGridCoord::new(0, 4).is_none());
    assert_eq!(coord(2, 1).x(), 2);
    assert_eq!(coord(2, 1).y(), 1);
}

#[test]
fn grid_coord_added() {
    assert_eq!(coord(1, 2).added((1, -1)), Some(coord(2, 1)));
    assert_eq!(coord(0, 0).added((-1, 0)), None);
    assert_eq!(coord(3, 3).added((0, 1)), None);
    assert_eq!(coord(3, 3).added((0, 0)), Some(coord(3, 3)));
    assert_eq!(coord(0, 0).added((3, 3)), Some(coord(3, 3)));
    assert_eq!(coord(0, 0).added((127, 127)), None);
}

#[test]
fn grid_coord_rotate() {
    assert_eq!(coord(0, 0).as_rotated(SpinDirection::Clockwise), coord(3, 0));
    assert_eq!(coord(3, 0).as_rotated(SpinDirection::Clockwise), coord(3, 3));
    assert_eq!(coord(0, 0).as_rotated(SpinDirection::CounterClockwise), coord(0, 3));
    let mut c = coord(1, 2);
    c.rotate(SpinDirection::Clockwise);
    c.rotate(SpinDirection::CounterClockwise);
    assert_eq!(c, coord(1, 2));
}
