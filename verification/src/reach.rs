use vstd::prelude::*;

use crate::direction::CartesianDirection;
use crate::esc_vec::esc_vec_get;
use crate::esc_vec::esc_vec_len;
use crate::esc_vec::esc_vec_view;
use crate::grid_coord::TileGridCoord;
use crate::grid_coord::GRID_WIDTH;
use crate::tile::spec_outer_edge_dirs;
use crate::tile::spec_wall_at;
use crate::tile::Tile;
use crate::tile::TileView;
use crate::wall::WallState;

verus! {

/// Both components lie inside the grid.
pub open spec fn valid_coord(c: (u8, u8)) -> bool {
    c.0 < GRID_WIDTH && c.1 < GRID_WIDTH
}

/// Flat index of coordinate `c` in a row-major 4 x 4 boolean matrix.
pub open spec fn idx_of(c: (u8, u8)) -> int {
    c.1 * 4 + c.0
}

/// `b` is one cardinal step from `a` through a wall that is exactly `Open`.
/// Any other wall state, `Entrance` and `Explore` included, does not connect
/// cells for this walk.
pub open spec fn spec_cardinal_adj(t: TileView, a: (u8, u8), b: (u8, u8)) -> bool {
    ||| (b.0 == a.0 + 1 && b.1 == a.1 && spec_wall_at(t, a, CartesianDirection::Right)
        == WallState::Open)
    ||| (a.0 == b.0 + 1 && b.1 == a.1 && spec_wall_at(t, a, CartesianDirection::Left)
        == WallState::Open)
    ||| (b.1 == a.1 + 1 && b.0 == a.0 && spec_wall_at(t, a, CartesianDirection::Down)
        == WallState::Open)
    ||| (a.1 == b.1 + 1 && b.0 == a.0 && spec_wall_at(t, a, CartesianDirection::Up)
        == WallState::Open)
}

/// `a` and `b` are the two endpoints of one of the tile's escalators.
pub open spec fn spec_esc_adj(t: TileView, a: (u8, u8), b: (u8, u8)) -> bool {
    exists|i: int|
        0 <= i < t.escalators.len() && (#[trigger] t.escalators[i] == (a, b) || t.escalators[i] == (
        b,
        a,
        ))
}

/// `b` is one step from `a`: a cardinal step through an open wall, or an
/// escalator ride.
pub open spec fn spec_adjacent(t: TileView, a: (u8, u8), b: (u8, u8)) -> bool {
    valid_coord(a) && valid_coord(b) && (spec_cardinal_adj(t, a, b) || spec_esc_adj(t, a, b))
}

/// The four canonical entrance coordinates fixed by the board design.
pub open spec fn spec_is_entrance_coord(c: (u8, u8)) -> bool {
    c == (0u8, 1u8) || c == (1u8, 3u8) || c == (2u8, 0u8) || c == (3u8, 2u8)
}

/// The unique rim direction of each canonical entrance coordinate.
pub open spec fn spec_entrance_dir(c: (u8, u8)) -> CartesianDirection {
    if c == (0u8, 1u8) {
        CartesianDirection::Left
    } else if c == (1u8, 3u8) {
        CartesianDirection::Down
    } else if c == (2u8, 0u8) {
        CartesianDirection::Up
    } else {
        CartesianDirection::Right
    }
}

/// An entrance coordinate whose rim wall is passable (anything but `Blocked`).
pub open spec fn spec_is_start(t: TileView, c: (u8, u8)) -> bool {
    spec_is_entrance_coord(c) && spec_wall_at(t, c, spec_entrance_dir(c)) != WallState::Blocked
}

/// A walk through the tile: it begins on a passable entrance and every step
/// is to an adjacent cell.
pub open spec fn spec_path_ok(t: TileView, p: Seq<(u8, u8)>) -> bool {
    &&& p.len() > 0
    &&& spec_is_start(t, p[0])
    &&& forall|i: int| 0 <= i < p.len() - 1 ==> spec_adjacent(t, #[trigger] p[i], p[i + 1])
}

/// A cell is reachable when some walk from an entrance ends on it.
pub open spec fn spec_reachable(t: TileView, c: (u8, u8)) -> bool {
    exists|p: Seq<(u8, u8)>| spec_path_ok(t, p) && p.last() == c
}

/// A passable entrance is reachable by the one-step walk.
pub proof fn lemma_start_reachable(t: TileView, c: (u8, u8))
    requires
        spec_is_start(t, c),
    ensures
        spec_reachable(t, c),
{
    let p = seq![c];
    assert(spec_path_ok(t, p) && p.last() == c);
}

/// A step from a reachable cell reaches its neighbor.
pub proof fn lemma_reachable_step(t: TileView, a: (u8, u8), b: (u8, u8))
    requires
        spec_reachable(t, a),
        spec_adjacent(t, a, b),
    ensures
        spec_reachable(t, b),
{
    let p = choose|p: Seq<(u8, u8)>| spec_path_ok(t, p) && p.last() == a;
    let q = p.push(b);
    assert forall|i: int| 0 <= i < q.len() - 1 implies spec_adjacent(t, #[trigger] q[i], q[i + 1]) by {
        if i < p.len() - 1 {
            assert(spec_adjacent(t, p[i], p[i + 1]));
        } else {
            assert(q[i] == a && q[i + 1] == b);
        }
    }
    assert(spec_path_ok(t, q) && q.last() == b);
}

/// There is a coordinate at some index of `s` whose view is `c`.
pub open spec fn seq_has_coord(s: Seq<TileGridCoord>, c: (u8, u8)) -> bool {
    exists|i: int| 0 <= i < s.len() && (#[trigger] s[i])@ == c
}

/// Strict ordering of coordinates by `x`, then `y`.
pub open spec fn coord_lex_lt(a: (u8, u8), b: (u8, u8)) -> bool {
    a.0 < b.0 || (a.0 == b.0 && a.1 < b.1)
}

/// Every endpoint of a walk lies in a set of cells that contains the passable
/// entrances and is closed under adjacency.
proof fn lemma_closed_covers_paths(t: TileView, vis: Seq<bool>, p: Seq<(u8, u8)>)
    requires
        vis.len() == 16,
        forall|c: (u8, u8)| #[trigger] spec_is_start(t, c) ==> vis[idx_of(c)],
        forall|a: (u8, u8), b: (u8, u8)|
            valid_coord(a) && vis[idx_of(a)] && #[trigger] spec_adjacent(t, a, b) ==> vis[idx_of(
                b,
            )],
        spec_path_ok(t, p),
    ensures
        vis[idx_of(p.last())],
    decreases p.len(),
{
    if p.len() == 1 {
        assert(spec_is_start(t, p[0]));
    } else {
        let q = p.subrange(0, p.len() - 1);
        assert(spec_adjacent(t, p[p.len() - 2], p[p.len() - 1]));
        assert forall|i: int| 0 <= i < q.len() - 1 implies spec_adjacent(
            t,
            #[trigger] q[i],
            q[i + 1],
        ) by {
            assert(spec_adjacent(t, p[i], p[i + 1]));
        }
        assert(spec_path_ok(t, q));
        lemma_closed_covers_paths(t, vis, q);
        assert(q.last() == p[p.len() - 2]);
    }
}

/// How many entries of `s` are `true`.
pub closed spec fn count_true(s: Seq<bool>) -> int
    decreases s.len(),
{
    if s.len() <= 0 {
        0
    } else {
        count_true(s.drop_last()) + if s.last() {
            1int
        } else {
            0int
        }
    }
}

proof fn lemma_count_true_le(s: Seq<bool>)
    ensures
        0 <= count_true(s) <= s.len(),
    decreases s.len(),
{
    if s.len() > 0 {
        lemma_count_true_le(s.drop_last());
    }
}

proof fn lemma_count_true_lt(s: Seq<bool>, i: int)
    requires
        0 <= i < s.len(),
        !s[i],
    ensures
        count_true(s) < s.len(),
    decreases s.len(),
{
    if i == s.len() - 1 {
        lemma_count_true_le(s.drop_last());
    } else {
        lemma_count_true_lt(s.drop_last(), i);
    }
}

proof fn lemma_count_true_update(s: Seq<bool>, i: int)
    requires
        0 <= i < s.len(),
        !s[i],
    ensures
        count_true(s.update(i, true)) == count_true(s) + 1,
    decreases s.len(),
{
    let u = s.update(i, true);
    if i == s.len() - 1 {
        assert(u.drop_last() =~= s.drop_last());
        assert(u.last());
    } else {
        assert(u.drop_last() =~= s.drop_last().update(i, true));
        lemma_count_true_update(s.drop_last(), i);
        assert(u.last() == s.last());
    }
}

/// The views of a sequence of coordinates.
pub open spec fn coord_views(s: Seq<TileGridCoord>) -> Seq<(u8, u8)> {
    Seq::new(s.len(), |i: int| s[i]@)
}

/// The canonical entrance coordinates whose rim wall is passable, in the
/// fixed order (0,1), (1,3), (2,0), (3,2).
pub open spec fn spec_starting_coords(t: TileView) -> Seq<(u8, u8)> {
    let s = Seq::<(u8, u8)>::empty();
    let s = if spec_is_start(t, (0u8, 1u8)) {
        s.push((0u8, 1u8))
    } else {
        s
    };
    let s = if spec_is_start(t, (1u8, 3u8)) {
        s.push((1u8, 3u8))
    } else {
        s
    };
    let s = if spec_is_start(t, (2u8, 0u8)) {
        s.push((2u8, 0u8))
    } else {
        s
    };
    if spec_is_start(t, (3u8, 2u8)) {
        s.push((3u8, 2u8))
    } else {
        s
    }
}

/// Every passable entrance appears among the starting coordinates.
proof fn lemma_starting_coords_complete(t: TileView, c: (u8, u8))
    requires
        spec_is_start(t, c),
    ensures
        spec_starting_coords(t).contains(c),
{
    let s = spec_starting_coords(t);
    if c == (0u8, 1u8) {
        assert(s[0] == c);
    } else if c == (1u8, 3u8) {
        if spec_is_start(t, (0u8, 1u8)) {
            assert(s[1] == c);
        } else {
            assert(s[0] == c);
        }
    } else if c == (2u8, 0u8) {
        let before = (if spec_is_start(t, (0u8, 1u8)) {
            1int
        } else {
            0int
        }) + (if spec_is_start(t, (1u8, 3u8)) {
            1int
        } else {
            0int
        });
        assert(s[before] == c);
    } else {
        let before = (if spec_is_start(t, (0u8, 1u8)) {
            1int
        } else {
            0int
        }) + (if spec_is_start(t, (1u8, 3u8)) {
            1int
        } else {
            0int
        }) + (if spec_is_start(t, (2u8, 0u8)) {
            1int
        } else {
            0int
        });
        assert(s[before] == c);
    }
}

/// The starting coordinates are passable entrances, pairwise distinct, and
/// inside the grid.
proof fn lemma_starting_coords_sound(t: TileView)
    ensures
        forall|i: int|
            0 <= i < spec_starting_coords(t).len() ==> spec_is_start(
                t,
                #[trigger] spec_starting_coords(t)[i],
            ) && valid_coord(spec_starting_coords(t)[i]),
        forall|i: int, j: int|
            0 <= i < j < spec_starting_coords(t).len() ==> spec_starting_coords(t)[i]
                != spec_starting_coords(t)[j],
{
}

/// The working state of the reachability walk: `q` is the worklist and
/// `vis` the visited matrix. Worklist entries are in-range, reachable,
/// unvisited and pairwise distinct; visited cells are reachable; every
/// passable entrance is visited or queued.
pub open spec fn bfs_inv(t: TileView, q: Seq<TileGridCoord>, vis: Seq<bool>) -> bool {
    &&& vis.len() == 16
    &&& (forall|i: int| 0 <= i < q.len() ==> (#[trigger] q[i]).wf())
    &&& (forall|i: int| 0 <= i < q.len() ==> spec_reachable(t, (#[trigger] q[i])@))
    &&& (forall|c: (u8, u8)| valid_coord(c) && vis[#[trigger] idx_of(c)] ==> spec_reachable(t, c))
    &&& (forall|c: (u8, u8)|
        #[trigger] spec_is_start(t, c) ==> vis[idx_of(c)] || seq_has_coord(q, c))
    &&& (forall|i: int| 0 <= i < q.len() ==> !vis[idx_of((#[trigger] q[i])@)])
    &&& (forall|i: int, j: int| 0 <= i < j < q.len() ==> q[i]@ != q[j]@)
}

/// Every neighbor of a visited cell is visited or queued.
pub open spec fn bfs_closure(t: TileView, q: Seq<TileGridCoord>, vis: Seq<bool>) -> bool {
    forall|a: (u8, u8), b: (u8, u8)|
        valid_coord(a) && vis[idx_of(a)] && #[trigger] spec_adjacent(t, a, b) ==> vis[idx_of(b)]
            || seq_has_coord(q, b)
}

/// [`bfs_closure`] with the cell whose neighbors are currently being
/// expanded excused.
pub open spec fn bfs_closure_except(
    t: TileView,
    q: Seq<TileGridCoord>,
    vis: Seq<bool>,
    cv: (u8, u8),
) -> bool {
    forall|a: (u8, u8), b: (u8, u8)|
        valid_coord(a) && vis[idx_of(a)] && #[trigger] spec_adjacent(t, a, b) && a != cv
            ==> vis[idx_of(b)] || seq_has_coord(q, b)
}

/// Distinct in-range coordinates occupy distinct flat indices.
proof fn lemma_idx_injective(a: (u8, u8), b: (u8, u8))
    requires
        valid_coord(a),
        valid_coord(b),
        idx_of(a) == idx_of(b),
    ensures
        a == b,
{
}

/// Appending to the worklist keeps every coordinate it already had.
proof fn lemma_has_coord_push(q: Seq<TileGridCoord>, n: TileGridCoord)
    ensures
        forall|c: (u8, u8)| #[trigger] seq_has_coord(q, c) ==> seq_has_coord(q.push(n), c),
{
    assert forall|c: (u8, u8)| #[trigger] seq_has_coord(q, c) implies seq_has_coord(
        q.push(n),
        c,
    ) by {
        let i = choose|i: int| 0 <= i < q.len() && (#[trigger] q[i])@ == c;
        assert(q.push(n)[i]@ == c);
    }
}

/// Popping the worklist's last entry and marking it visited preserves the
/// walk's invariant; the closure property holds for every visited cell but
/// the one just marked.
proof fn lemma_bfs_pop_mark(t: TileView, q: Seq<TileGridCoord>, vis: Seq<bool>)
    requires
        bfs_inv(t, q, vis),
        bfs_closure(t, q, vis),
        q.len() > 0,
    ensures
        bfs_inv(t, q.drop_last(), vis.update(idx_of(q.last()@), true)),
        bfs_closure_except(t, q.drop_last(), vis.update(idx_of(q.last()@), true), q.last()@),
        !vis[idx_of(q.last()@)],
        valid_coord(q.last()@),
{
    let cv = q.last()@;
    let q2 = q.drop_last();
    let vis2 = vis.update(idx_of(cv), true);
    assert(valid_coord(cv));
    assert forall|c: (u8, u8)| valid_coord(c) && vis2[#[trigger] idx_of(c)] implies spec_reachable(
        t,
        c,
    ) by {
        if idx_of(c) == idx_of(cv) {
            lemma_idx_injective(c, cv);
            assert(spec_reachable(t, q[q.len() - 1]@));
        }
    }
    assert forall|c: (u8, u8)| #[trigger] spec_is_start(t, c) implies vis2[idx_of(c)]
        || seq_has_coord(q2, c) by {
        if !vis2[idx_of(c)] {
            assert(idx_of(c) != idx_of(cv));
            assert(!vis[idx_of(c)]);
            let i = choose|i: int| 0 <= i < q.len() && (#[trigger] q[i])@ == c;
            assert(c != cv);
            assert(i < q.len() - 1);
            assert(q2[i]@ == c);
        }
    }
    assert forall|i: int| 0 <= i < q2.len() implies !vis2[idx_of((#[trigger] q2[i])@)] by {
        assert(q[i]@ != cv);
        assert(!vis[idx_of(q[i]@)]);
        if idx_of(q[i]@) == idx_of(cv) {
            lemma_idx_injective(q[i]@, cv);
        }
    }
    assert forall|a: (u8, u8), b: (u8, u8)|
        valid_coord(a) && vis2[idx_of(a)] && #[trigger] spec_adjacent(t, a, b) && a
            != cv implies vis2[idx_of(b)] || seq_has_coord(q2, b) by {
        if !vis2[idx_of(b)] {
            assert(idx_of(a) != idx_of(cv)) by {
                if idx_of(a) == idx_of(cv) {
                    lemma_idx_injective(a, cv);
                }
            }
            assert(vis[idx_of(a)]);
            assert(!vis[idx_of(b)]);
            assert(seq_has_coord(q, b));
            let i = choose|i: int| 0 <= i < q.len() && (#[trigger] q[i])@ == b;
            assert(b != cv) by {
                if b == cv {
                    assert(vis2[idx_of(b)]);
                }
            }
            assert(i < q.len() - 1);
            assert(q2[i]@ == b);
        }
    }
}

/// Appending an unvisited, unqueued, reachable neighbor preserves the
/// walk's invariant.
proof fn lemma_bfs_push(
    t: TileView,
    q: Seq<TileGridCoord>,
    vis: Seq<bool>,
    n: TileGridCoord,
    cv: (u8, u8),
)
    requires
        bfs_inv(t, q, vis),
        bfs_closure_except(t, q, vis, cv),
        n.wf(),
        spec_reachable(t, n@),
        !vis[idx_of(n@)],
        !seq_has_coord(q, n@),
    ensures
        bfs_inv(t, q.push(n), vis),
        bfs_closure_except(t, q.push(n), vis, cv),
{
    let q2 = q.push(n);
    lemma_has_coord_push(q, n);
    assert forall|i: int, j: int| 0 <= i < j < q2.len() implies q2[i]@ != q2[j]@ by {
        if j == q.len() {
            assert(q2[i] == q[i]);
            assert(!((#[trigger] q[i])@ == n@));
        }
    }
    assert forall|c: (u8, u8)| #[trigger] spec_is_start(t, c) implies vis[idx_of(c)]
        || seq_has_coord(q2, c) by {}
    assert forall|a: (u8, u8), b: (u8, u8)|
        valid_coord(a) && vis[idx_of(a)] && #[trigger] spec_adjacent(t, a, b) && a
            != cv implies vis[idx_of(b)] || seq_has_coord(q2, b) by {}
}

/// Once every neighbor of the newly visited cell is visited or queued, the
/// closure property holds without exception.
proof fn lemma_bfs_close(
    t: TileView,
    q: Seq<TileGridCoord>,
    vis: Seq<bool>,
    cv: (u8, u8),
    ns: Seq<TileGridCoord>,
)
    requires
        bfs_inv(t, q, vis),
        bfs_closure_except(t, q, vis, cv),
        forall|c: (u8, u8)| #[trigger] spec_adjacent(t, cv, c) ==> seq_has_coord(ns, c),
        forall|k: int|
            0 <= k < ns.len() ==> vis[idx_of((#[trigger] ns[k])@)] || seq_has_coord(q, ns[k]@),
    ensures
        bfs_closure(t, q, vis),
{
    assert forall|a: (u8, u8), b: (u8, u8)|
        valid_coord(a) && vis[idx_of(a)] && #[trigger] spec_adjacent(t, a, b) implies vis[idx_of(
        b,
    )] || seq_has_coord(q, b) by {
        if a == cv {
            assert(seq_has_coord(ns, b));
            let k = choose|k: int| 0 <= k < ns.len() && (#[trigger] ns[k])@ == b;
            assert(vis[idx_of(ns[k]@)] || seq_has_coord(q, ns[k]@));
        }
    }
}

/// When the worklist has emptied, the visited set contains the passable
/// entrances, is closed under adjacency, and holds only reachable cells,
/// so it is exactly the reachable set.
proof fn lemma_bfs_done(t: TileView, vis: Seq<bool>)
    requires
        vis.len() == 16,
        forall|c: (u8, u8)| valid_coord(c) && vis[#[trigger] idx_of(c)] ==> spec_reachable(t, c),
        forall|c: (u8, u8)| #[trigger] spec_is_start(t, c) ==> vis[idx_of(c)],
        forall|a: (u8, u8), b: (u8, u8)|
            valid_coord(a) && vis[idx_of(a)] && #[trigger] spec_adjacent(t, a, b) ==> vis[idx_of(
                b,
            )],
    ensures
        forall|c: (u8, u8)| valid_coord(c) ==> vis[#[trigger] idx_of(c)] == spec_reachable(t, c),
{
    assert forall|c: (u8, u8)| valid_coord(c) implies vis[#[trigger] idx_of(c)] == spec_reachable(
        t,
        c,
    ) by {
        if spec_reachable(t, c) {
            let p = choose|p: Seq<(u8, u8)>| spec_path_ok(t, p) && p.last() == c;
            lemma_closed_covers_paths(t, vis, p);
        }
    }
}

/// Whether some element of `v` has the same coordinates as `c`.
fn vec_contains_coord(v: &Vec<TileGridCoord>, c: TileGridCoord) -> (r: bool)
    ensures
        r == seq_has_coord(v@, c@),
{
    let mut i: usize = 0;
    while i < v.len()
        invariant
            i <= v@.len(),
            forall|k: int| 0 <= k < i ==> (#[trigger] v@[k])@ != c@,
        decreases v@.len() - i,
    {
        proof {
            crate::grid_coord::lemma_coord_eq_view(v@[i as int], c);
        }
        if v[i] == c {
            return true;
        }
        i += 1;
    }
    false
}

impl Tile {
    /// Whether `b` is one step from `a` in this tile: through an open wall
    /// or over an escalator.
    fn is_immediate_neighbor(&self, a: TileGridCoord, b: TileGridCoord) -> (r: bool)
        requires
            self.wf(),
            a.wf(),
            b.wf(),
        ensures
            r == spec_adjacent(self@, a@, b@),
    {
        let ax = a.x();
        let ay = a.y();
        let bx = b.x();
        let by = b.y();
        let cardinal = (bx == ax + 1 && by == ay && self.cell_wall(a, CartesianDirection::Right)
            == WallState::Open) || (ax == bx + 1 && by == ay && self.cell_wall(
            a,
            CartesianDirection::Left,
        ) == WallState::Open) || (by == ay + 1 && bx == ax && self.cell_wall(
            a,
            CartesianDirection::Down,
        ) == WallState::Open) || (ay == by + 1 && bx == ax && self.cell_wall(
            a,
            CartesianDirection::Up,
        ) == WallState::Open);
        if cardinal {
            return true;
        }
        let escalators = self.escalators();
        let n = esc_vec_len(escalators);
        let mut i: usize = 0;
        while i < n
            invariant
                self.wf(),
                n == self@.escalators.len(),
                i <= n,
                esc_vec_view(*escalators) == self@.escalators,
                forall|k: int|
                    0 <= k < i ==> !(#[trigger] self@.escalators[k] == (a@, b@)
                        || self@.escalators[k] == (b@, a@)),
        decreases n - i,
        {
            let e = esc_vec_get(escalators, i);
            proof {
                crate::grid_coord::lemma_coord_eq_view(e.0[0], a);
                crate::grid_coord::lemma_coord_eq_view(e.0[1], b);
                crate::grid_coord::lemma_coord_eq_view(e.0[0], b);
                crate::grid_coord::lemma_coord_eq_view(e.0[1], a);
            }
            if (e.0[0] == a && e.0[1] == b) || (e.0[0] == b && e.0[1] == a) {
                return true;
            }
            i += 1;
        }
        false
    }

    /// Coordinates one step away from `coord` (through open walls or over
    /// escalators), in strictly increasing `(x, y)` order with no repeats.
    pub fn cell_immediate_neighbor_coords(&self, coord: TileGridCoord) -> (r: Vec<TileGridCoord>)
        requires
            self.wf(),
            coord.wf(),
        ensures
            forall|i: int|
                0 <= i < r@.len() ==> (#[trigger] r@[i]).wf() && spec_adjacent(
                    self@,
                    coord@,
                    r@[i]@,
                ),
            forall|c: (u8, u8)| #[trigger] spec_adjacent(self@, coord@, c) ==> seq_has_coord(r@, c),
            forall|i: int, j: int| 0 <= i < j < r@.len() ==> coord_lex_lt(r@[i]@, r@[j]@),
    {
        let mut r: Vec<TileGridCoord> = Vec::new();
        let mut x: u8 = 0;
        while x < GRID_WIDTH
            invariant
                self.wf(),
                coord.wf(),
                x <= GRID_WIDTH,
                forall|i: int|
                    0 <= i < r@.len() ==> (#[trigger] r@[i]).wf() && spec_adjacent(
                        self@,
                        coord@,
                        r@[i]@,
                    ),
                forall|i: int| 0 <= i < r@.len() ==> (#[trigger] r@[i])@.0 < x,
                forall|c: (u8, u8)|
                    c.0 < x && c.1 < GRID_WIDTH && #[trigger] spec_adjacent(self@, coord@, c)
                        ==> seq_has_coord(r@, c),
                forall|i: int, j: int| 0 <= i < j < r@.len() ==> coord_lex_lt(r@[i]@, r@[j]@),
            decreases GRID_WIDTH - x,
        {
            let mut y: u8 = 0;
            while y < GRID_WIDTH
                invariant
                    self.wf(),
                    coord.wf(),
                    x < GRID_WIDTH,
                    y <= GRID_WIDTH,
                    forall|i: int|
                        0 <= i < r@.len() ==> (#[trigger] r@[i]).wf() && spec_adjacent(
                            self@,
                            coord@,
                            r@[i]@,
                        ),
                    forall|i: int|
                        0 <= i < r@.len() ==> (#[trigger] r@[i])@.0 < x || ((#[trigger] r@[i])@.0
                            == x && r@[i]@.1 < y),
                    forall|c: (u8, u8)|
                        c.0 < x && c.1 < GRID_WIDTH && #[trigger] spec_adjacent(self@, coord@, c)
                            ==> seq_has_coord(r@, c),
                    forall|c: (u8, u8)|
                        c.0 == x && c.1 < y && #[trigger] spec_adjacent(self@, coord@, c)
                            ==> seq_has_coord(r@, c),
                    forall|i: int, j: int| 0 <= i < j < r@.len() ==> coord_lex_lt(r@[i]@, r@[j]@),
                decreases GRID_WIDTH - y,
            {
                let c = match TileGridCoord::new(x, y) {
                    Some(c) => c,
                    None => {
                        proof {
                            assert(false);
                        }
                        coord
                    },
                };
                let ghost r_before = r@;
                if self.is_immediate_neighbor(coord, c) {
                    r.push(c);
                }
                proof {
                    assert forall|cc: (u8, u8)|
                        cc.0 == x && cc.1 < y + 1 && #[trigger] spec_adjacent(self@, coord@, cc)
                            implies seq_has_coord(r@, cc) by {
                        if cc.1 < y {
                            assert(seq_has_coord(r_before, cc));
                            let i = choose|i: int|
                                0 <= i < r_before.len() && (#[trigger] r_before[i])@ == cc;
                            assert(r@[i]@ == cc);
                        } else {
                            assert(cc == c@);
                            assert(r@[r@.len() - 1]@ == cc);
                        }
                    }
                    assert forall|cc: (u8, u8)|
                        cc.0 < x && cc.1 < GRID_WIDTH && #[trigger] spec_adjacent(
                            self@,
                            coord@,
                            cc,
                        ) implies seq_has_coord(r@, cc) by {
                        assert(seq_has_coord(r_before, cc));
                        let i = choose|i: int|
                            0 <= i < r_before.len() && (#[trigger] r_before[i])@ == cc;
                        assert(r@[i]@ == cc);
                    }
                }
                y += 1;
            }
            x += 1;
        }
        r
    }

    /// The canonical entrance coordinates whose rim wall is passable, in the
    /// fixed order (0,1), (1,3), (2,0), (3,2). Each of the four canonical
    /// coordinates has exactly one rim direction; this is proved here rather
    /// than checked at run time.
    pub fn reachable_coords_starting(&self) -> (r: Vec<TileGridCoord>)
        requires
            self.wf(),
        ensures
            coord_views(r@) == spec_starting_coords(self@),
            forall|i: int| 0 <= i < r@.len() ==> (#[trigger] r@[i]).wf(),
    {
        let ghost t = self@;
        let mut r: Vec<TileGridCoord> = Vec::new();
        let c0 = match TileGridCoord::new(0, 1) {
            Some(c) => c,
            None => {
                proof {
                    assert(false);
                }
                return r;
            },
        };
        proof {
            assert(spec_outer_edge_dirs(c0@) =~= seq![CartesianDirection::Left]);
        }
        if self.cell_wall(c0, CartesianDirection::Left) != WallState::Blocked {
            r.push(c0);
        }
        let c1 = match TileGridCoord::new(1, 3) {
            Some(c) => c,
            None => {
                proof {
                    assert(false);
                }
                return r;
            },
        };
        proof {
            assert(spec_outer_edge_dirs(c1@) =~= seq![CartesianDirection::Down]);
        }
        if self.cell_wall(c1, CartesianDirection::Down) != WallState::Blocked {
            r.push(c1);
        }
        let c2 = match TileGridCoord::new(2, 0) {
            Some(c) => c,
            None => {
                proof {
                    assert(false);
                }
                return r;
            },
        };
        proof {
            assert(spec_outer_edge_dirs(c2@) =~= seq![CartesianDirection::Up]);
        }
        if self.cell_wall(c2, CartesianDirection::Up) != WallState::Blocked {
            r.push(c2);
        }
        let c3 = match TileGridCoord::new(3, 2) {
            Some(c) => c,
            None => {
                proof {
                    assert(false);
                }
                return r;
            },
        };
        proof {
            assert(spec_outer_edge_dirs(c3@) =~= seq![CartesianDirection::Right]);
        }
        if self.cell_wall(c3, CartesianDirection::Right) != WallState::Blocked {
            r.push(c3);
        }
        proof {
            assert(coord_views(r@) =~= spec_starting_coords(t));
        }
        r
    }

    /// Which cells of the grid can be reached from the tile's passable
    /// entrances, walking through open walls and riding escalators.
    /// Entry `[y][x]` answers for the cell at `(x, y)`.
    #[verifier::rlimit(100)]
    pub fn reachable_coords(&self) -> (r: Vec<Vec<bool>>)
        requires
            self.wf(),
        ensures
            r@.len() == 4,
            forall|y: int| 0 <= y < 4 ==> (#[trigger] r@[y])@.len() == 4,
            forall|x: int, y: int|
                0 <= x < 4 && 0 <= y < 4 ==> r@[y]@[x] == spec_reachable(
                    self@,
                    ((x as u8), (y as u8)),
                ),
    {
        let ghost t = self@;
        let mut visited: Vec<bool> = crate::tile::fill_vec(16, false);
        let mut explore: Vec<TileGridCoord> = self.reachable_coords_starting();
        let mut nvis: usize = 0;
        proof {
            lemma_count_true_all_false(visited@);
            lemma_starting_coords_sound(t);
            assert forall|i: int| 0 <= i < explore@.len() implies spec_reachable(
                t,
                (#[trigger] explore@[i])@,
            ) by {
                assert(explore@[i]@ == spec_starting_coords(t)[i]);
                lemma_start_reachable(t, explore@[i]@);
            }
            assert forall|c: (u8, u8)| #[trigger] spec_is_start(t, c) implies seq_has_coord(
                explore@,
                c,
            ) by {
                lemma_starting_coords_complete(t, c);
                let i = choose|i: int|
                    0 <= i < spec_starting_coords(t).len() && spec_starting_coords(t)[i] == c;
                assert(explore@[i]@ == c);
            }
            assert forall|i: int, j: int| 0 <= i < j < explore@.len() implies explore@[i]@
                != explore@[j]@ by {
                assert(spec_starting_coords(t)[i] != spec_starting_coords(t)[j]);
            }
            assert(bfs_inv(t, explore@, visited@));
            assert(bfs_closure(t, explore@, visited@));
        }
        while explore.len() > 0
            invariant
                self.wf(),
                t == self@,
                nvis == count_true(visited@),
                nvis <= 16,
                bfs_inv(t, explore@, visited@),
                bfs_closure(t, explore@, visited@),
            decreases 16 - nvis,
        {
            let ghost q_old = explore@;
            let ghost vis_old = visited@;
            proof {
                lemma_count_true_lt(visited@, idx_of(q_old.last()@));
            }
            let coord = explore.pop().unwrap();
            let ghost cv = coord@;
            let ix: usize = coord.y() as usize * 4 + coord.x() as usize;
            proof {
                lemma_count_true_update(visited@, ix as int);
                lemma_bfs_pop_mark(t, q_old, vis_old);
            }
            visited.set(ix, true);
            nvis += 1;
            proof {
                assert(explore@ =~= q_old.drop_last());
                assert(visited@ =~= vis_old.update(idx_of(cv), true));
            }
            let neighbors = self.cell_immediate_neighbor_coords(coord);
            let mut j: usize = 0;
            while j < neighbors.len()
                invariant
                    self.wf(),
                    t == self@,
                    coord.wf(),
                    cv == coord@,
                    spec_reachable(t, cv),
                    nvis == count_true(visited@),
                    nvis <= 16,
                    visited@[idx_of(cv)],
                    j <= neighbors@.len(),
                    forall|k: int|
                        0 <= k < neighbors@.len() ==> (#[trigger] neighbors@[k]).wf()
                            && spec_adjacent(t, cv, neighbors@[k]@),
                    forall|c: (u8, u8)|
                        #[trigger] spec_adjacent(t, cv, c) ==> seq_has_coord(neighbors@, c),
                    forall|k: int|
                        0 <= k < j ==> visited@[idx_of((#[trigger] neighbors@[k])@)]
                            || seq_has_coord(explore@, neighbors@[k]@),
                    bfs_inv(t, explore@, visited@),
                    bfs_closure_except(t, explore@, visited@, cv),
                decreases neighbors@.len() - j,
            {
                let n = neighbors[j];
                let nix: usize = n.y() as usize * 4 + n.x() as usize;
                let ghost q_before = explore@;
                if !visited[nix] && !vec_contains_coord(&explore, n) {
                    proof {
                        lemma_reachable_step(t, cv, n@);
                        lemma_bfs_push(t, q_before, visited@, n, cv);
                        lemma_has_coord_push(q_before, n);
                    }
                    explore.push(n);
                    proof {
                        assert(explore@ =~= q_before.push(n));
                        assert(explore@[explore@.len() - 1]@ == n@);
                        assert(seq_has_coord(explore@, n@));
                    }
                } else {
                    proof {
                        assert(visited@[idx_of(neighbors@[j as int]@)] || seq_has_coord(
                            explore@,
                            neighbors@[j as int]@,
                        ));
                    }
                }
                j += 1;
            }
            proof {
                lemma_bfs_close(t, explore@, visited@, cv, neighbors@);
            }
        }
        // the queue is empty: the visited set contains the entrances and is
        // closed under adjacency, so it is exactly the reachable set
        proof {
            assert(explore@.len() == 0);
            assert forall|s: (u8, u8)| #[trigger] spec_is_start(t, s) implies visited@[idx_of(
                s,
            )] by {
                assert(!seq_has_coord(explore@, s));
            }
            assert forall|a: (u8, u8), b: (u8, u8)|
                valid_coord(a) && visited@[idx_of(a)] && #[trigger] spec_adjacent(
                    t,
                    a,
                    b,
                ) implies visited@[idx_of(b)] by {
                assert(!seq_has_coord(explore@, b));
            }
            lemma_bfs_done(t, visited@);
        }

        let mut rows: Vec<Vec<bool>> = Vec::new();
        let mut y: usize = 0;
        while y < 4
            invariant
                y <= 4,
                visited@.len() == 16,
                rows@.len() == y,
                forall|yy: int| 0 <= yy < y ==> (#[trigger] rows@[yy])@.len() == 4,
                forall|xx: int, yy: int|
                    0 <= xx < 4 && 0 <= yy < y ==> rows@[yy]@[xx] == visited@[yy * 4 + xx],
            decreases 4 - y,
        {
            let mut row: Vec<bool> = Vec::new();
            let mut x: usize = 0;
            while x < 4
                invariant
                    x <= 4,
                    y < 4,
                    visited@.len() == 16,
                    row@.len() == x,
                    forall|xx: int| 0 <= xx < x ==> row@[xx] == visited@[y * 4 + xx],
                decreases 4 - x,
            {
                row.push(visited[y * 4 + x]);
                x += 1;
            }
            rows.push(row);
            y += 1;
        }
        proof {
            assert forall|x: int, y2: int| 0 <= x < 4 && 0 <= y2 < 4 implies rows@[y2]@[x]
                == spec_reachable(t, ((x as u8), (y2 as u8))) by {
                let c = ((x as u8), (y2 as u8));
                assert(valid_coord(c));
                assert(idx_of(c) == y2 * 4 + x);
                assert(rows@[y2]@[x] == visited@[y2 * 4 + x]);
            }
        }
        rows
    }
}

/// Entries of all-`false` sequences are not counted.
proof fn lemma_count_true_all_false(s: Seq<bool>)
    requires
        forall|i: int| 0 <= i < s.len() ==> !s[i],
    ensures
        count_true(s) == 0,
    decreases s.len(),
{
    if s.len() > 0 {
        lemma_count_true_all_false(s.drop_last());
    }
}

} // verus!
