use vstd::arithmetic::div_mod::lemma_fundamental_div_mod_converse;
use vstd::prelude::*;

use crate::direction::SpinDirection;

verus! {

/// Flat index, in a `height` x `width` row-major matrix, of the source entry
/// that lands on row `a`, column `b` of the quarter-turned matrix
/// (which is `width` x `height`).
pub open spec fn rot_src(a: int, b: int, height: int, width: int, spin: SpinDirection) -> int
    recommends
        0 <= a < width,
        0 <= b < height,
{
    match spin {
        SpinDirection::Clockwise => (height - 1 - b) * width + a,
        SpinDirection::CounterClockwise => b * width + (width - 1 - a),
    }
}

/// A `height` x `width` row-major matrix turned a quarter turn, as a
/// `width` x `height` row-major matrix.
pub open spec fn spec_rotated_matrix<T>(
    m: Seq<T>,
    height: int,
    width: int,
    spin: SpinDirection,
) -> Seq<T>
    recommends
        m.len() == height * width,
        0 < height,
        0 < width,
{
    Seq::new(
        (width * height) as nat,
        |j: int| m[rot_src(j / height, j % height, height, width, spin)],
    )
}

/// Flat index, in the turned `width` x `height` matrix, where the source
/// entry at row `r`, column `c` lands.
pub open spec fn rot_dest(r: int, c: int, height: int, width: int, spin: SpinDirection) -> int
    recommends
        0 <= r < height,
        0 <= c < width,
{
    match spin {
        SpinDirection::Clockwise => c * height + (height - 1 - r),
        SpinDirection::CounterClockwise => (width - 1 - c) * height + r,
    }
}

proof fn lemma_rot_dest_bounds(height: int, width: int, spin: SpinDirection)
    requires
        0 < height,
        0 < width,
    ensures
        forall|r: int, c: int|
            0 <= r < height && 0 <= c < width ==> 0 <= #[trigger] rot_dest(
                r,
                c,
                height,
                width,
                spin,
            ) < width * height,
{
    assert forall|r: int, c: int| 0 <= r < height && 0 <= c < width implies 0 <= #[trigger] rot_dest(
        r,
        c,
        height,
        width,
        spin,
    ) < width * height by {
        assert(0 <= c * height + (height - 1 - r) < width * height) by (nonlinear_arith)
            requires
                0 <= r < height,
                0 <= c < width,
        ;
        assert(0 <= (width - 1 - c) * height + r < width * height) by (nonlinear_arith)
            requires
                0 <= r < height,
                0 <= c < width,
        ;
    }
}

/// Each destination slot `j` of the turned matrix receives exactly the source
/// entry named by `rot_src`, i.e. `rot_dest` and `rot_src` are inverse.
proof fn lemma_rot_dest_src(j: int, height: int, width: int, spin: SpinDirection)
    requires
        0 < height,
        0 < width,
        0 <= j < width * height,
    ensures
        ({
            let a = j / height;
            let b = j % height;
            let s = rot_src(a, b, height, width, spin);
            let r = s / width;
            let c = s % width;
            &&& 0 <= a < width
            &&& 0 <= b < height
            &&& 0 <= s < height * width
            &&& r * width + c == s
            &&& 0 <= r < height
            &&& 0 <= c < width
            &&& rot_dest(r, c, height, width, spin) == j
        }),
{
    let a = j / height;
    let b = j % height;
    assert(j == a * height + b && 0 <= b < height && 0 <= a < width) by (nonlinear_arith)
        requires
            0 < height,
            0 < width,
            0 <= j < width * height,
            a == j / height,
            b == j % height,
    ;
    let s = rot_src(a, b, height, width, spin);
    match spin {
        SpinDirection::Clockwise => {
            assert(s == (height - 1 - b) * width + a);
            lemma_fundamental_div_mod_converse(s, width, height - 1 - b, a);
            assert(s / width == height - 1 - b && s % width == a);
            assert(0 <= s < height * width) by (nonlinear_arith)
                requires
                    s == (height - 1 - b) * width + a,
                    0 <= b < height,
                    0 <= a < width,
            ;
            assert(rot_dest(height - 1 - b, a, height, width, spin) == a * height + (height - 1 - (
            height - 1 - b)));
            assert((height - 1 - b) * width + a == s);
            assert(s / width * width + s % width == s);
        },
        SpinDirection::CounterClockwise => {
            assert(s == b * width + (width - 1 - a));
            lemma_fundamental_div_mod_converse(s, width, b, width - 1 - a);
            assert(s / width == b && s % width == width - 1 - a);
            assert(0 <= s < height * width) by (nonlinear_arith)
                requires
                    s == b * width + (width - 1 - a),
                    0 <= b < height,
                    0 <= a < width,
            ;
            assert(rot_dest(b, width - 1 - a, height, width, spin) == (width - 1 - (width - 1 - a))
                * height + b);
        },
    }
}

/// Distinct source entries land on distinct destination slots.
proof fn lemma_rot_dest_injective(height: int, width: int, spin: SpinDirection)
    requires
        0 < height,
        0 < width,
    ensures
        forall|r1: int, c1: int, r2: int, c2: int|
            0 <= r1 < height && 0 <= c1 < width && 0 <= r2 < height && 0 <= c2 < width && #[trigger] rot_dest(
                r1,
                c1,
                height,
                width,
                spin,
            ) == #[trigger] rot_dest(r2, c2, height, width, spin) ==> r1 == r2 && c1 == c2,
{
    assert forall|r1: int, c1: int, r2: int, c2: int|
        0 <= r1 < height && 0 <= c1 < width && 0 <= r2 < height && 0 <= c2 < width && #[trigger] rot_dest(
            r1,
            c1,
            height,
            width,
            spin,
        ) == #[trigger] rot_dest(r2, c2, height, width, spin) implies r1 == r2 && c1 == c2 by {
        match spin {
            SpinDirection::Clockwise => {
                assert(c1 * height + (height - 1 - r1) == c2 * height + (height - 1 - r2) ==> c1
                    == c2 && r1 == r2) by (nonlinear_arith)
                    requires
                        0 <= r1 < height,
                        0 <= r2 < height,
                ;
            },
            SpinDirection::CounterClockwise => {
                assert((width - 1 - c1) * height + r1 == (width - 1 - c2) * height + r2 ==> c1 == c2
                    && r1 == r2) by (nonlinear_arith)
                    requires
                        0 <= r1 < height,
                        0 <= r2 < height,
                ;
            },
        }
    }
}

/// A `height` x `width` row-major matrix turned by a half turn.
pub open spec fn spec_rot180<T>(m: Seq<T>, height: int, width: int) -> Seq<T>
    recommends
        m.len() == height * width,
        0 < height,
        0 < width,
{
    Seq::new(
        (height * width) as nat,
        |j: int| m[(height - 1 - j / width) * width + (width - 1 - j % width)],
    )
}

proof fn lemma_flat_coords(j: int, rows: int, cols: int)
    requires
        0 < rows,
        0 < cols,
        0 <= j < rows * cols,
    ensures
        0 <= j / cols < rows,
        0 <= j % cols < cols,
        j == (j / cols) * cols + j % cols,
{
    assert(0 <= j / cols < rows && 0 <= j % cols < cols && j == (j / cols) * cols + j % cols)
        by (nonlinear_arith)
        requires
            0 < rows,
            0 < cols,
            0 <= j < rows * cols,
    ;
}

proof fn lemma_flat_index_bound(r: int, c: int, rows: int, cols: int)
    requires
        0 <= r < rows,
        0 <= c < cols,
    ensures
        0 <= r * cols + c < rows * cols,
{
    assert(0 <= r * cols + c < rows * cols) by (nonlinear_arith)
        requires
            0 <= r < rows,
            0 <= c < cols,
    ;
}

/// A quarter turn one way followed by a quarter turn the other way restores
/// the matrix.
pub proof fn lemma_rot_matrix_round_trip<T>(m: Seq<T>, height: int, width: int)
    requires
        m.len() == height * width,
        0 < height,
        0 < width,
    ensures
        spec_rotated_matrix(
            spec_rotated_matrix(m, height, width, SpinDirection::Clockwise),
            width,
            height,
            SpinDirection::CounterClockwise,
        ) == m,
        spec_rotated_matrix(
            spec_rotated_matrix(m, height, width, SpinDirection::CounterClockwise),
            width,
            height,
            SpinDirection::Clockwise,
        ) == m,
{
    let h = height;
    let w = width;
    let m1cw = spec_rotated_matrix(m, h, w, SpinDirection::Clockwise);
    let m1ccw = spec_rotated_matrix(m, h, w, SpinDirection::CounterClockwise);
    let back_a = spec_rotated_matrix(m1cw, w, h, SpinDirection::CounterClockwise);
    let back_b = spec_rotated_matrix(m1ccw, w, h, SpinDirection::Clockwise);
    assert forall|j: int| 0 <= j < h * w implies back_a[j] == m[j] && back_b[j] == m[j] by {
        lemma_flat_coords(j, h, w);
        let r = j / w;
        let c = j % w;
        // clockwise then counter-clockwise
        let j1 = c * h + (h - 1 - r);
        lemma_flat_index_bound(c, h - 1 - r, w, h);
        lemma_fundamental_div_mod_converse(j1, h, c, h - 1 - r);
        assert(rot_src(j / w, j % w, w, h, SpinDirection::CounterClockwise) == j1);
        assert(back_a[j] == m1cw[j1]);
        assert(m1cw[j1] == m[rot_src(j1 / h, j1 % h, h, w, SpinDirection::Clockwise)]);
        assert(rot_src(j1 / h, j1 % h, h, w, SpinDirection::Clockwise) == (h - 1 - (h - 1 - r)) * w
            + c);
        assert(back_a[j] == m[r * w + c]);
        // counter-clockwise then clockwise
        let j2 = (w - 1 - c) * h + r;
        lemma_flat_index_bound(w - 1 - c, r, w, h);
        lemma_fundamental_div_mod_converse(j2, h, w - 1 - c, r);
        assert(rot_src(j / w, j % w, w, h, SpinDirection::Clockwise) == j2);
        assert(back_b[j] == m1ccw[j2]);
        assert(m1ccw[j2] == m[rot_src(j2 / h, j2 % h, h, w, SpinDirection::CounterClockwise)]);
        assert(rot_src(j2 / h, j2 % h, h, w, SpinDirection::CounterClockwise) == r * w + (w - 1 - (
        w - 1 - c)));
        assert(back_b[j] == m[r * w + c]);
    }
    assert(back_a =~= m);
    assert(back_b =~= m);
}

/// Two quarter turns in the same sense, either sense, give the half turn.
pub proof fn lemma_rot_matrix_double<T>(m: Seq<T>, height: int, width: int, spin: SpinDirection)
    requires
        m.len() == height * width,
        0 < height,
        0 < width,
    ensures
        spec_rotated_matrix(
            spec_rotated_matrix(m, height, width, spin),
            width,
            height,
            spin,
        ) == spec_rot180(m, height, width),
{
    let h = height;
    let w = width;
    let m1 = spec_rotated_matrix(m, h, w, spin);
    let m2 = spec_rotated_matrix(m1, w, h, spin);
    assert forall|j: int| 0 <= j < h * w implies m2[j] == spec_rot180(m, h, w)[j] by {
        lemma_flat_coords(j, h, w);
        let r = j / w;
        let c = j % w;
        match spin {
            SpinDirection::Clockwise => {
                let j1 = (w - 1 - c) * h + r;
                lemma_flat_index_bound(w - 1 - c, r, w, h);
                lemma_fundamental_div_mod_converse(j1, h, w - 1 - c, r);
                assert(rot_src(j / w, j % w, w, h, spin) == j1);
                assert(m2[j] == m1[j1]);
                assert(m1[j1] == m[rot_src(j1 / h, j1 % h, h, w, spin)]);
                assert(rot_src(j1 / h, j1 % h, h, w, spin) == (h - 1 - r) * w + (w - 1 - c));
            },
            SpinDirection::CounterClockwise => {
                let j1 = c * h + (h - 1 - r);
                lemma_flat_index_bound(c, h - 1 - r, w, h);
                lemma_fundamental_div_mod_converse(j1, h, c, h - 1 - r);
                assert(rot_src(j / w, j % w, w, h, spin) == j1);
                assert(m2[j] == m1[j1]);
                assert(m1[j1] == m[rot_src(j1 / h, j1 % h, h, w, spin)]);
                assert(rot_src(j1 / h, j1 % h, h, w, spin) == (h - 1 - r) * w + (w - 1 - c));
            },
        }
    }
    assert(m2 =~= spec_rot180(m, h, w));
}

/// The half turn is an involution.
pub proof fn lemma_rot180_involutive<T>(m: Seq<T>, height: int, width: int)
    requires
        m.len() == height * width,
        0 < height,
        0 < width,
    ensures
        spec_rot180(spec_rot180(m, height, width), height, width) == m,
{
    let h = height;
    let w = width;
    let m1 = spec_rot180(m, h, w);
    let m2 = spec_rot180(m1, h, w);
    assert forall|j: int| 0 <= j < h * w implies m2[j] == m[j] by {
        lemma_flat_coords(j, h, w);
        let r = j / w;
        let c = j % w;
        let j1 = (h - 1 - r) * w + (w - 1 - c);
        lemma_flat_index_bound(h - 1 - r, w - 1 - c, h, w);
        lemma_fundamental_div_mod_converse(j1, w, h - 1 - r, w - 1 - c);
        assert(m2[j] == m1[j1]);
        assert(m1[j1] == m[(h - 1 - (h - 1 - r)) * w + (w - 1 - (w - 1 - c))]);
    }
    assert(m2 =~= m);
}

/// Writes into `out`, reinterpreted as a `width` x `height` row-major matrix,
/// the quarter turn of `arr`, a `height` x `width` row-major matrix.
pub fn rotate_2d_array<T: Copy>(
    arr: &Vec<T>,
    height: usize,
    width: usize,
    out: &mut Vec<T>,
    spin: SpinDirection,
)
    requires
        0 < height,
        0 < width,
        arr@.len() == height * width,
        old(out)@.len() == width * height,
    ensures
        final(out)@ == spec_rotated_matrix(arr@, height as int, width as int, spin),
{
    proof {
        lemma_rot_dest_bounds(height as int, width as int, spin);
        lemma_rot_dest_injective(height as int, width as int, spin);
    }
    let mut r: usize = 0;
    while r < height
        invariant
            0 < height,
            0 < width,
            r <= height,
            arr@.len() == height * width,
            out@.len() == width * height,
            forall|rr: int, cc: int|
                0 <= rr < r && 0 <= cc < width ==> out@[#[trigger] rot_dest(
                    rr,
                    cc,
                    height as int,
                    width as int,
                    spin,
                )] == arr@[rr * (width as int) + cc],
        decreases height - r,
    {
        let mut c: usize = 0;
        while c < width
            invariant
                0 < height,
                0 < width,
                r < height,
                c <= width,
                arr@.len() == height * width,
                out@.len() == width * height,
                forall|rr: int, cc: int|
                    0 <= rr < r && 0 <= cc < width ==> out@[#[trigger] rot_dest(
                        rr,
                        cc,
                        height as int,
                        width as int,
                        spin,
                    )] == arr@[rr * (width as int) + cc],
                forall|cc: int|
                    0 <= cc < c ==> out@[#[trigger] rot_dest(
                        r as int,
                        cc,
                        height as int,
                        width as int,
                        spin,
                    )] == arr@[(r as int) * (width as int) + cc],
            decreases width - c,
        {
            let n: usize = arr.len();
            proof {
                lemma_rot_dest_bounds(height as int, width as int, spin);
                lemma_rot_dest_injective(height as int, width as int, spin);
                assert(r * width + c < height * width) by (nonlinear_arith)
                    requires
                        r < height,
                        c < width,
                ;
                assert(r * width + c < n);
            }
            let no: usize = out.len();
            proof {
                assert(0 <= rot_dest(r as int, c as int, height as int, width as int, spin) < width
                    * height);
                assert(width * height == no);
            }
            let src_idx: usize = r * width + c;
            let v = arr[src_idx];
            let dest_idx: usize = match spin {
                SpinDirection::Clockwise => c * height + (height - 1 - r),
                SpinDirection::CounterClockwise => (width - 1 - c) * height + r,
            };
            proof {
                assert(dest_idx == rot_dest(r as int, c as int, height as int, width as int, spin));
            }
            out.set(dest_idx, v);
            c += 1;
        }
        r += 1;
    }
    proof {
        lemma_rot_dest_bounds(height as int, width as int, spin);
        assert forall|j: int| 0 <= j < width * height implies out@[j] == spec_rotated_matrix(
            arr@,
            height as int,
            width as int,
            spin,
        )[j] by {
            lemma_rot_dest_src(j, height as int, width as int, spin);
            let s = rot_src(j / (height as int), j % (height as int), height as int, width as int, spin);
            assert(out@[rot_dest(s / (width as int), s % (width as int), height as int, width as int, spin)]
                == arr@[(s / (width as int)) * (width as int) + s % (width as int)]);
        }
        assert(out@ =~= spec_rotated_matrix(arr@, height as int, width as int, spin));
    }
}

} // verus!
