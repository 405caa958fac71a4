use vstd::prelude::*;

use crate::cell::spec_set_availability;
use crate::cell::CellItemAvailability;
use crate::cell::TileCell;
use crate::direction::CartesianDirection;
use crate::direction::SpinDirection;
use crate::esc_vec::esc_vec_clone;
use crate::esc_vec::esc_vec_get;
use crate::esc_vec::esc_vec_len;
use crate::esc_vec::esc_vec_new;
use crate::esc_vec::esc_vec_set;
use crate::esc_vec::esc_vec_try_push;
use crate::esc_vec::esc_vec_view;
use crate::esc_vec::MAX_ESCALATORS_PER_TILE;
use crate::escalator::esc_wf;
use crate::escalator::spec_rotated_esc;
use crate::escalator::EscalatorLocation;
use crate::grid_coord::TileGridCoord;
use crate::grid_coord::GRID_WIDTH;
use crate::rotation::rotate_2d_array;
use crate::rotation::spec_rotated_matrix;
use crate::wall::WallState;

verus! {

/// Cells in a tile's grid: `GRID_WIDTH` squared.
pub const CELL_COUNT: usize = 16;

/// Wall slots in each of the two wall matrices: `GRID_WIDTH * (GRID_WIDTH + 1)`.
pub const WALL_COUNT: usize = 20;

/// The mathematical content of a [`Tile`]: three row-major matrices and the
/// escalator pairs.
///
/// - `cells` is `GRID_WIDTH` rows of `GRID_WIDTH` cells; index `y * 4 + x`.
/// - `horz` is `GRID_WIDTH + 1` rows of `GRID_WIDTH` walls; entry `y * 4 + x`
///   is the wall directly above cell `(x, y)`, so row `4` closes the bottom.
/// - `vert` is `GRID_WIDTH` rows of `GRID_WIDTH + 1` walls; entry `y * 5 + x`
///   is the wall directly left of cell `(x, y)`, so column `4` closes the right.
#[verifier::ext_equal]
pub struct TileView {
    pub cells: Seq<TileCell>,
    pub horz: Seq<WallState>,
    pub vert: Seq<WallState>,
    pub escalators: Seq<((u8, u8), (u8, u8))>,
}

impl TileView {
    /// Matrices have their fixed sizes and every escalator joins two distinct
    /// in-range coordinates.
    pub open spec fn wf(self) -> bool {
        &&& self.cells.len() == CELL_COUNT
        &&& self.horz.len() == WALL_COUNT
        &&& self.vert.len() == WALL_COUNT
        &&& self.escalators.len() <= MAX_ESCALATORS_PER_TILE
        &&& forall|i: int|
            0 <= i < self.escalators.len() ==> esc_wf(#[trigger] self.escalators[i])
    }

    pub open spec fn cell_at(self, x: int, y: int) -> TileCell
        recommends
            0 <= x < GRID_WIDTH,
            0 <= y < GRID_WIDTH,
    {
        self.cells[y * 4 + x]
    }

    pub open spec fn horz_at(self, x: int, y: int) -> WallState
        recommends
            0 <= x < GRID_WIDTH,
            0 <= y <= GRID_WIDTH,
    {
        self.horz[y * 4 + x]
    }

    pub open spec fn vert_at(self, x: int, y: int) -> WallState
        recommends
            0 <= x <= GRID_WIDTH,
            0 <= y < GRID_WIDTH,
    {
        self.vert[y * 5 + x]
    }
}

/// The wall on side `d` of cell `c`.
pub open spec fn spec_wall_at(t: TileView, c: (u8, u8), d: CartesianDirection) -> WallState
    recommends
        c.0 < GRID_WIDTH,
        c.1 < GRID_WIDTH,
{
    match d {
        CartesianDirection::Up => t.horz_at(c.0 as int, c.1 as int),
        CartesianDirection::Down => t.horz_at(c.0 as int, c.1 as int + 1),
        CartesianDirection::Left => t.vert_at(c.0 as int, c.1 as int),
        CartesianDirection::Right => t.vert_at(c.0 as int + 1, c.1 as int),
    }
}

/// The directions in which `c` sits on the rim of the grid, in the fixed
/// order Left, Right, Up, Down. Corners yield two, interior cells none.
pub open spec fn spec_outer_edge_dirs(c: (u8, u8)) -> Seq<CartesianDirection> {
    let s = Seq::<CartesianDirection>::empty();
    let s = if c.0 == 0 {
        s.push(CartesianDirection::Left)
    } else {
        s
    };
    let s = if c.0 == GRID_WIDTH - 1 {
        s.push(CartesianDirection::Right)
    } else {
        s
    };
    let s = if c.1 == 0 {
        s.push(CartesianDirection::Up)
    } else {
        s
    };
    if c.1 == GRID_WIDTH - 1 {
        s.push(CartesianDirection::Down)
    } else {
        s
    }
}

/// The outer-edge directions of `c` whose wall is exactly `Open`, in the same
/// fixed order.
pub open spec fn spec_open_outer_dirs(t: TileView, c: (u8, u8)) -> Seq<CartesianDirection> {
    spec_outer_edge_dirs(c).filter(|d: CartesianDirection| spec_wall_at(t, c, d) == WallState::Open)
}

/// The direction an exit arrow at `c` points: the unique open outer-edge
/// direction when there is exactly one, and `Right` as the fallback when
/// there are none or several.
pub open spec fn spec_exit_direction(t: TileView, c: (u8, u8)) -> CartesianDirection {
    let open_dirs = spec_open_outer_dirs(t, c);
    if open_dirs.len() == 1 {
        open_dirs[0]
    } else {
        CartesianDirection::Right
    }
}

/// The neighbor of `c` one step in direction `d`, when that step stays on
/// the grid.
pub open spec fn spec_cardinal_neighbor(c: (u8, u8), d: CartesianDirection) -> Option<(u8, u8)> {
    let t = crate::direction::spec_neighbor_transform(d);
    let nx = c.0 + t.0;
    let ny = c.1 + t.1;
    if 0 <= nx < GRID_WIDTH && 0 <= ny < GRID_WIDTH {
        Some((nx as u8, ny as u8))
    } else {
        None
    }
}

/// The views of a sequence of escalators.
pub open spec fn esc_views(s: Seq<EscalatorLocation>) -> Seq<((u8, u8), (u8, u8))> {
    Seq::new(s.len(), |i: int| s[i]@)
}

/// A board-game tile: a 4 x 4 grid of cells, the wall matrices that enclose
/// and subdivide it, and up to four escalator shortcuts.
#[derive(Debug)]
pub struct Tile {
    cell_grid: Vec<TileCell>,
    horz_walls: Vec<WallState>,
    vert_walls: Vec<WallState>,
    escalators: arrayvec::ArrayVec<EscalatorLocation, 4>,
}

impl View for Tile {
    type V = TileView;

    closed spec fn view(&self) -> TileView {
        TileView {
            cells: self.cell_grid@,
            horz: self.horz_walls@,
            vert: self.vert_walls@,
            escalators: esc_vec_view(self.escalators),
        }
    }
}

/// An element-for-element copy of a vector of plain values.
fn copy_vec<T: Copy>(v: &Vec<T>) -> (r: Vec<T>)
    ensures
        r@ == v@,
{
    let mut r: Vec<T> = Vec::new();
    let mut i: usize = 0;
    while i < v.len()
        invariant
            i <= v@.len(),
            r@ =~= v@.subrange(0, i as int),
        decreases v@.len() - i,
    {
        r.push(v[i]);
        i += 1;
    }
    proof {
        assert(v@.subrange(0, v@.len() as int) =~= v@);
    }
    r
}

impl Clone for Tile {
    /// A clone carries exactly the same cells, walls and escalators.
    fn clone(&self) -> (r: Self)
        ensures
            r@ == self@,
    {
        let r = Tile {
            cell_grid: copy_vec(&self.cell_grid),
            horz_walls: copy_vec(&self.horz_walls),
            vert_walls: copy_vec(&self.vert_walls),
            escalators: esc_vec_clone(&self.escalators),
        };
        proof {
            assert(r@ =~= self@);
        }
        r
    }
}

/// A vector holding `n` copies of `val`.
pub(crate) fn fill_vec<T: Copy>(n: usize, val: T) -> (v: Vec<T>)
    ensures
        v@ == Seq::new(n as nat, |i: int| val),
{
    let mut v: Vec<T> = Vec::new();
    let mut i: usize = 0;
    while i < n
        invariant
            i <= n,
            v@ =~= Seq::new(i as nat, |k: int| val),
        decreases n - i,
    {
        v.push(val);
        i += 1;
    }
    proof {
        assert(v@ =~= Seq::new(n as nat, |i: int| val));
    }
    v
}

/// The tile every parse starts from: all cells empty, all walls open,
/// no escalators.
pub open spec fn spec_default_tile() -> TileView {
    TileView {
        cells: Seq::new(CELL_COUNT as nat, |i: int| TileCell::Empty),
        horz: Seq::new(WALL_COUNT as nat, |i: int| WallState::Open),
        vert: Seq::new(WALL_COUNT as nat, |i: int| WallState::Open),
        escalators: Seq::empty(),
    }
}

impl Default for Tile {
    fn default() -> (r: Self)
        ensures
            r@ == spec_default_tile(),
            r@.wf(),
    {
        let r = Tile {
            cell_grid: fill_vec(CELL_COUNT, TileCell::Empty),
            horz_walls: fill_vec(WALL_COUNT, WallState::Open),
            vert_walls: fill_vec(WALL_COUNT, WallState::Open),
            escalators: esc_vec_new(),
        };
        proof {
            assert(r@ =~= spec_default_tile());
        }
        r
    }
}

impl Tile {
    pub open spec fn wf(&self) -> bool {
        self@.wf()
    }

    /// Builds a tile from its raw matrices and escalator list, validating
    /// the matrix sizes and the escalator invariant.
    pub fn from_parts(
        cells: Vec<TileCell>,
        horz_walls: Vec<WallState>,
        vert_walls: Vec<WallState>,
        escalators: Vec<EscalatorLocation>,
    ) -> (r: Option<Tile>)
        ensures
            ({
                let ok = cells@.len() == CELL_COUNT && horz_walls@.len() == WALL_COUNT
                    && vert_walls@.len() == WALL_COUNT && escalators@.len()
                    <= MAX_ESCALATORS_PER_TILE && (forall|i: int|
                    0 <= i < escalators@.len() ==> esc_wf(#[trigger] escalators@[i]@));
                if ok {
                    r matches Some(t) && t@ == (TileView {
                        cells: cells@,
                        horz: horz_walls@,
                        vert: vert_walls@,
                        escalators: esc_views(escalators@),
                    }) && t@.wf()
                } else {
                    r is None
                }
            }),
    {
        if cells.len() != CELL_COUNT || horz_walls.len() != WALL_COUNT || vert_walls.len()
            != WALL_COUNT || escalators.len() > MAX_ESCALATORS_PER_TILE {
            return None;
        }
        let mut ev: arrayvec::ArrayVec<EscalatorLocation, 4> = esc_vec_new();
        let mut i: usize = 0;
        while i < escalators.len()
            invariant
                i <= escalators@.len(),
                escalators@.len() <= MAX_ESCALATORS_PER_TILE,
                esc_vec_view(ev) == esc_views(escalators@.subrange(0, i as int)),
                forall|k: int| 0 <= k < i ==> esc_wf(#[trigger] escalators@[k]@),
            decreases escalators@.len() - i,
        {
            let e = escalators[i];
            let a = e.0[0];
            let b = e.0[1];
            let distinct = a.x() != b.x() || a.y() != b.y();
            if a.x() >= GRID_WIDTH || a.y() >= GRID_WIDTH || b.x() >= GRID_WIDTH || b.y()
                >= GRID_WIDTH || !distinct {
                proof {
                    assert(!esc_wf(escalators@[i as int]@));
                }
                return None;
            }
            let pushed = esc_vec_try_push(&mut ev, e);
            proof {
                assert(pushed);
                assert(esc_vec_view(ev) =~= esc_views(escalators@.subrange(0, i as int + 1)));
            }
            i += 1;
        }
        proof {
            assert(escalators@.subrange(0, escalators@.len() as int) =~= escalators@);
        }
        let t = Tile { cell_grid: cells, horz_walls, vert_walls, escalators: ev };
        Some(t)
    }

    /// The cell at `coord`.
    pub fn cell_value(&self, coord: TileGridCoord) -> (r: TileCell)
        requires
            self.wf(),
            coord.wf(),
        ensures
            r == self@.cell_at(coord@.0 as int, coord@.1 as int),
    {
        self.cell_grid[coord.y() as usize * 4 + coord.x() as usize]
    }

    /// The wall on side `direction` of the cell at `coord`.
    pub fn cell_wall(&self, coord: TileGridCoord, direction: CartesianDirection) -> (r: WallState)
        requires
            self.wf(),
            coord.wf(),
        ensures
            r == spec_wall_at(self@, coord@, direction),
    {
        let x = coord.x() as usize;
        let y = coord.y() as usize;
        match direction {
            CartesianDirection::Up => self.horz_walls[y * 4 + x],
            CartesianDirection::Down => self.horz_walls[(y + 1) * 4 + x],
            CartesianDirection::Left => self.vert_walls[y * 5 + x],
            CartesianDirection::Right => self.vert_walls[y * 5 + x + 1],
        }
    }

    /// Directions pointing off the edge of the tile from `coord`.
    pub fn cell_outer_edge_directions(&self, coord: TileGridCoord) -> (r: Vec<CartesianDirection>)
        requires
            coord.wf(),
        ensures
            r@ == spec_outer_edge_dirs(coord@),
    {
        let mut dirs: Vec<CartesianDirection> = Vec::new();
        if coord.x() == 0 {
            dirs.push(CartesianDirection::Left);
        }
        if coord.x() == GRID_WIDTH - 1 {
            dirs.push(CartesianDirection::Right);
        }
        if coord.y() == 0 {
            dirs.push(CartesianDirection::Up);
        }
        if coord.y() == GRID_WIDTH - 1 {
            dirs.push(CartesianDirection::Down);
        }
        proof {
            assert(dirs@ =~= spec_outer_edge_dirs(coord@));
        }
        dirs
    }

    /// Coordinates of the neighbor reached from `coord` by one cardinal step.
    pub fn cell_cardinal_neighbor_coords(
        &self,
        coord: TileGridCoord,
        direction: CartesianDirection,
    ) -> (r: Option<TileGridCoord>)
        ensures
            ({
                match spec_cardinal_neighbor(coord@, direction) {
                    Some(n) => r matches Some(c) && c@ == n && c.wf(),
                    None => r is None,
                }
            }),
    {
        coord.added(direction.neighbor_transform())
    }

    /// The neighboring cell reached from `coord` by one cardinal step.
    pub fn cell_cardinal_neighbor(
        &self,
        coord: TileGridCoord,
        direction: CartesianDirection,
    ) -> (r: Option<TileCell>)
        requires
            self.wf(),
        ensures
            ({
                match spec_cardinal_neighbor(coord@, direction) {
                    Some(n) => r == Some(self@.cell_at(n.0 as int, n.1 as int)),
                    None => r is None,
                }
            }),
    {
        match self.cell_cardinal_neighbor_coords(coord, direction) {
            Some(neighbor_point) => Some(self.cell_value(neighbor_point)),
            None => None,
        }
    }

    /// The direction an exit arrow drawn at `coord` should point: the unique
    /// open outer-edge wall when there is exactly one, `Right` otherwise.
    pub fn cell_exit_direction(&self, coord: TileGridCoord) -> (r: CartesianDirection)
        requires
            self.wf(),
            coord.wf(),
        ensures
            r == spec_exit_direction(self@, coord@),
    {
        let outer = self.cell_outer_edge_directions(coord);
        let mut open_exit_dirs: Vec<CartesianDirection> = Vec::new();
        let mut i: usize = 0;
        while i < outer.len()
            invariant
                self.wf(),
                coord.wf(),
                i <= outer@.len(),
                outer@ == spec_outer_edge_dirs(coord@),
                open_exit_dirs@ == outer@.subrange(0, i as int).filter(
                    |d: CartesianDirection| spec_wall_at(self@, coord@, d) == WallState::Open,
                ),
            decreases outer@.len() - i,
        {
            let d = outer[i];
            proof {
                assert(outer@.subrange(0, i as int + 1).drop_last() =~= outer@.subrange(
                    0,
                    i as int,
                ));
                reveal(Seq::filter);
            }
            if self.cell_wall(coord, d) == WallState::Open {
                open_exit_dirs.push(d);
            }
            i += 1;
        }
        proof {
            assert(outer@.subrange(0, outer@.len() as int) =~= outer@);
        }
        if open_exit_dirs.len() == 1 {
            open_exit_dirs[0]
        } else {
            CartesianDirection::Right
        }
    }

    /// The flat cell matrix, row-major.
    pub fn cell_grid(&self) -> (r: &Vec<TileCell>)
        ensures
            r@ == self@.cells,
    {
        &self.cell_grid
    }

    /// The flat horizontal-wall matrix, row-major, five rows of four.
    pub fn horz_walls(&self) -> (r: &Vec<WallState>)
        ensures
            r@ == self@.horz,
    {
        &self.horz_walls
    }

    /// The flat vertical-wall matrix, row-major, four rows of five.
    pub fn vert_walls(&self) -> (r: &Vec<WallState>)
        ensures
            r@ == self@.vert,
    {
        &self.vert_walls
    }

    /// The escalator list.
    pub fn escalators(&self) -> (r: &arrayvec::ArrayVec<EscalatorLocation, 4>)
        ensures
            esc_vec_view(*r) == self@.escalators,
    {
        &self.escalators
    }

    /// Turns the whole tile a quarter turn: the cell grid is rotated, the
    /// horizontal and vertical wall matrices trade places under the same
    /// index transform, and each escalator endpoint is rotated.
    pub fn rotate(&mut self, spin: SpinDirection)
        requires
            old(self).wf(),
        ensures
            final(self)@ == spec_rotated_tile(old(self)@, spin),
            final(self).wf(),
    {
        let ghost t0 = self@;
        let mut new_cells = fill_vec(CELL_COUNT, TileCell::Empty);
        rotate_2d_array(&self.cell_grid, 4, 4, &mut new_cells, spin);
        let mut new_vert = fill_vec(WALL_COUNT, WallState::Open);
        rotate_2d_array(&self.horz_walls, 5, 4, &mut new_vert, spin);
        let mut new_horz = fill_vec(WALL_COUNT, WallState::Open);
        rotate_2d_array(&self.vert_walls, 4, 5, &mut new_horz, spin);
        let mut new_escs = esc_vec_clone(&self.escalators);
        let n = esc_vec_len(&new_escs);
        let mut i: usize = 0;
        while i < n
            invariant
                t0.wf(),
                n == t0.escalators.len(),
                i <= n,
                esc_vec_view(new_escs).len() == n,
                forall|k: int|
                    0 <= k < i ==> esc_vec_view(new_escs)[k] == spec_rotated_esc(
                        t0.escalators[k],
                        spin,
                    ),
                forall|k: int| i <= k < n ==> esc_vec_view(new_escs)[k] == t0.escalators[k],
            decreases n - i,
        {
            let mut e = esc_vec_get(&new_escs, i);
            e.rotate(spin);
            esc_vec_set(&mut new_escs, i, e);
            i += 1;
        }
        self.cell_grid = new_cells;
        self.horz_walls = new_horz;
        self.vert_walls = new_vert;
        self.escalators = new_escs;
        proof {
            assert(esc_vec_view(self.escalators) =~= spec_rotated_tile(t0, spin).escalators);
            assert(self@ =~= spec_rotated_tile(t0, spin));
            lemma_rotated_tile_wf(t0, spin);
        }
    }

    /// Marks the availability of the cell at `coord`, a no-op on cells that
    /// carry none; walls and escalators are untouched.
    pub fn set_cell_availability(&mut self, coord: TileGridCoord, avail: CellItemAvailability)
        requires
            old(self).wf(),
            coord.wf(),
        ensures
            final(self)@ == (TileView {
                cells: old(self)@.cells.update(
                    coord@.1 as int * 4 + coord@.0 as int,
                    spec_set_availability(
                        old(self)@.cell_at(coord@.0 as int, coord@.1 as int),
                        avail,
                    ),
                ),
                ..old(self)@
            }),
            final(self).wf(),
    {
        let i = coord.y() as usize * 4 + coord.x() as usize;
        let mut c = self.cell_grid[i];
        c.set_availability(avail);
        self.cell_grid.set(i, c);
    }
}

/// The whole tile turned a quarter turn: cells rotated, wall matrices
/// trading orientation under the same transform, escalator endpoints rotated.
pub open spec fn spec_rotated_tile(t: TileView, spin: SpinDirection) -> TileView {
    TileView {
        cells: spec_rotated_matrix(t.cells, 4, 4, spin),
        horz: spec_rotated_matrix(t.vert, 4, 5, spin),
        vert: spec_rotated_matrix(t.horz, 5, 4, spin),
        escalators: Seq::new(
            t.escalators.len(),
            |i: int| spec_rotated_esc(t.escalators[i], spin),
        ),
    }
}

/// Rotation preserves well-formedness.
pub proof fn lemma_rotated_tile_wf(t: TileView, spin: SpinDirection)
    requires
        t.wf(),
    ensures
        spec_rotated_tile(t, spin).wf(),
{
    let r = spec_rotated_tile(t, spin);
    assert forall|i: int| 0 <= i < r.escalators.len() implies esc_wf(#[trigger] r.escalators[i]) by {
        assert(esc_wf(t.escalators[i]));
    }
}

/// Rotating a tile one way and then the other restores it exactly.
pub proof fn lemma_tile_rotate_round_trip(t: TileView)
    requires
        t.wf(),
    ensures
        spec_rotated_tile(
            spec_rotated_tile(t, SpinDirection::Clockwise),
            SpinDirection::CounterClockwise,
        ) == t,
        spec_rotated_tile(
            spec_rotated_tile(t, SpinDirection::CounterClockwise),
            SpinDirection::Clockwise,
        ) == t,
{
    crate::rotation::lemma_rot_matrix_round_trip::<TileCell>(t.cells, 4, 4);
    crate::rotation::lemma_rot_matrix_round_trip::<WallState>(t.horz, 5, 4);
    crate::rotation::lemma_rot_matrix_round_trip::<WallState>(t.vert, 4, 5);
    let cw = spec_rotated_tile(t, SpinDirection::Clockwise);
    let ccw = spec_rotated_tile(t, SpinDirection::CounterClockwise);
    let back_a = spec_rotated_tile(cw, SpinDirection::CounterClockwise);
    let back_b = spec_rotated_tile(ccw, SpinDirection::Clockwise);
    assert forall|i: int| 0 <= i < t.escalators.len() implies back_a.escalators[i]
        == t.escalators[i] && back_b.escalators[i] == t.escalators[i] by {
        assert(esc_wf(t.escalators[i]));
        crate::grid_coord::lemma_rotated_coord_round_trip(t.escalators[i].0);
        crate::grid_coord::lemma_rotated_coord_round_trip(t.escalators[i].1);
    }
    assert(back_a.escalators =~= t.escalators);
    assert(back_b.escalators =~= t.escalators);
    assert(back_a =~= t);
    assert(back_b =~= t);
}

/// The whole tile turned a half turn.
pub open spec fn spec_tile180(t: TileView) -> TileView {
    TileView {
        cells: crate::rotation::spec_rot180(t.cells, 4, 4),
        horz: crate::rotation::spec_rot180(t.horz, 5, 4),
        vert: crate::rotation::spec_rot180(t.vert, 4, 5),
        escalators: Seq::new(
            t.escalators.len(),
            |i: int|
                (
                    (
                        (GRID_WIDTH - 1 - t.escalators[i].0.0) as u8,
                        (GRID_WIDTH - 1 - t.escalators[i].0.1) as u8,
                    ),
                    (
                        (GRID_WIDTH - 1 - t.escalators[i].1.0) as u8,
                        (GRID_WIDTH - 1 - t.escalators[i].1.1) as u8,
                    ),
                ),
        ),
    }
}

/// Two quarter turns in the same sense, in either sense, give the half turn:
/// rotating twice clockwise equals rotating twice counter-clockwise.
pub proof fn lemma_tile_rotate_twice(t: TileView, spin: SpinDirection)
    requires
        t.wf(),
    ensures
        spec_rotated_tile(spec_rotated_tile(t, spin), spin) == spec_tile180(t),
{
    crate::rotation::lemma_rot_matrix_double::<TileCell>(t.cells, 4, 4, spin);
    crate::rotation::lemma_rot_matrix_double::<WallState>(t.horz, 5, 4, spin);
    crate::rotation::lemma_rot_matrix_double::<WallState>(t.vert, 4, 5, spin);
    let twice = spec_rotated_tile(spec_rotated_tile(t, spin), spin);
    assert forall|i: int| 0 <= i < t.escalators.len() implies twice.escalators[i] == spec_tile180(
        t,
    ).escalators[i] by {
        assert(esc_wf(t.escalators[i]));
    }
    assert(twice.escalators =~= spec_tile180(t).escalators);
    assert(twice =~= spec_tile180(t));
}

/// Four quarter turns in the same sense restore the tile exactly.
pub proof fn lemma_tile_rotate_four(t: TileView, spin: SpinDirection)
    requires
        t.wf(),
    ensures
        spec_rotated_tile(
            spec_rotated_tile(spec_rotated_tile(spec_rotated_tile(t, spin), spin), spin),
            spin,
        ) == t,
{
    lemma_tile_rotate_twice(t, spin);
    lemma_rotated_tile_wf(t, spin);
    lemma_rotated_tile_wf(spec_rotated_tile(t, spin), spin);
    lemma_tile_rotate_twice(spec_tile180(t), spin);
    crate::rotation::lemma_rot180_involutive::<TileCell>(t.cells, 4, 4);
    crate::rotation::lemma_rot180_involutive::<WallState>(t.horz, 5, 4);
    crate::rotation::lemma_rot180_involutive::<WallState>(t.vert, 4, 5);
    let four = spec_rotated_tile(
        spec_rotated_tile(spec_rotated_tile(spec_rotated_tile(t, spin), spin), spin),
        spin,
    );
    assert(four == spec_tile180(spec_tile180(t)));
    let back = spec_tile180(spec_tile180(t));
    assert forall|i: int| 0 <= i < t.escalators.len() implies back.escalators[i]
        == t.escalators[i] by {
        assert(esc_wf(t.escalators[i]));
    }
    assert(back.escalators =~= t.escalators);
    assert(back =~= t);
}

fn eq_cell_vec(a: &Vec<TileCell>, b: &Vec<TileCell>) -> (r: bool)
    ensures
        r == (a@ == b@),
{
    if a.len() != b.len() {
        return false;
    }
    let mut i: usize = 0;
    while i < a.len()
        invariant
            i <= a@.len(),
            a@.len() == b@.len(),
            forall|k: int| 0 <= k < i ==> a@[k] == b@[k],
        decreases a@.len() - i,
    {
        if a[i] != b[i] {
            return false;
        }
        i += 1;
    }
    proof {
        assert(a@ =~= b@);
    }
    true
}

fn eq_wall_vec(a: &Vec<WallState>, b: &Vec<WallState>) -> (r: bool)
    ensures
        r == (a@ == b@),
{
    if a.len() != b.len() {
        return false;
    }
    let mut i: usize = 0;
    while i < a.len()
        invariant
            i <= a@.len(),
            a@.len() == b@.len(),
            forall|k: int| 0 <= k < i ==> a@[k] == b@[k],
        decreases a@.len() - i,
    {
        if a[i] != b[i] {
            return false;
        }
        i += 1;
    }
    proof {
        assert(a@ =~= b@);
    }
    true
}

fn eq_esc_pair(a: EscalatorLocation, b: EscalatorLocation) -> (r: bool)
    ensures
        r == (a@ == b@),
{
    proof {
        crate::grid_coord::lemma_coord_eq_view(a.0[0], b.0[0]);
        crate::grid_coord::lemma_coord_eq_view(a.0[1], b.0[1]);
    }
    a.0[0] == b.0[0] && a.0[1] == b.0[1]
}

fn eq_esc_vec(
    a: &arrayvec::ArrayVec<EscalatorLocation, 4>,
    b: &arrayvec::ArrayVec<EscalatorLocation, 4>,
) -> (r: bool)
    ensures
        r == (esc_vec_view(*a) == esc_vec_view(*b)),
{
    let na = esc_vec_len(a);
    let nb = esc_vec_len(b);
    if na != nb {
        return false;
    }
    let mut i: usize = 0;
    while i < na
        invariant
            i <= na,
            na == esc_vec_view(*a).len(),
            na == esc_vec_view(*b).len(),
            forall|k: int| 0 <= k < i ==> esc_vec_view(*a)[k] == esc_vec_view(*b)[k],
        decreases na - i,
    {
        let ea = esc_vec_get(a, i);
        let eb = esc_vec_get(b, i);
        if !eq_esc_pair(ea, eb) {
            return false;
        }
        i += 1;
    }
    proof {
        assert(esc_vec_view(*a) =~= esc_vec_view(*b));
    }
    true
}

impl PartialEq for Tile {
    /// Tiles are equal when their cell grids, wall matrices and escalator
    /// lists all agree.
    fn eq(&self, other: &Tile) -> (r: bool) {
        let r = eq_cell_vec(&self.cell_grid, &other.cell_grid) && eq_wall_vec(
            &self.horz_walls,
            &other.horz_walls,
        ) && eq_wall_vec(&self.vert_walls, &other.vert_walls) && eq_esc_vec(
            &self.escalators,
            &other.escalators,
        );
        proof {
            if r {
                assert(self@ =~= other@);
            } else {
                assert(self@ != other@);
            }
        }
        r
    }
}

impl vstd::std_specs::cmp::PartialEqSpecImpl for Tile {
    open spec fn obeys_eq_spec() -> bool {
        true
    }

    open spec fn eq_spec(&self, other: &Tile) -> bool {
        self@ == other@
    }
}

} // verus!
