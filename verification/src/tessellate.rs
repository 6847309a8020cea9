//! Curve tessellator: turns an ordered sequence of control points into a
//! triangulated constant-width ribbon (a stroke mesh) following a smooth,
//! C1-continuous chain of quadratic segments through those points.
//!
//! The curve model: the first control point anchors the curve; every further
//! control point ends one quadratic segment whose inner control is the
//! reflection of the previous segment's inner control about the segment's
//! start (the first segment degenerates to a straight line). Each segment is
//! approximated by a fixed number of samples; each sample is offset sideways
//! by half the stroke width to form the two rims of the ribbon.

use vstd::prelude::*;

verus! {

/// A 2D control point of a platform silhouette curve, in world units.
#[derive(Clone, Copy, Debug, PartialEq, Eq, Structural)]
pub struct ControlPoint {
    pub x: i64,
    pub y: i64,
}

/// A vertex of a stroke mesh. The tessellator keeps the curve in the plane,
/// so `z` is always zero here; the collider synthesizer drops it.
#[derive(Clone, Copy, Debug, PartialEq, Eq, Structural)]
pub struct MeshVertex {
    pub x: i64,
    pub y: i64,
    pub z: i64,
}

/// An index triple into a vertex array, one triangle of a mesh.
#[derive(Clone, Copy, Debug, PartialEq, Eq, Structural)]
pub struct Tri {
    pub a: usize,
    pub b: usize,
    pub c: usize,
}

/// A triangulated constant-width ribbon around a curve.
#[derive(Debug)]
pub struct StrokeMesh {
    pub vertices: Vec<MeshVertex>,
    pub triangles: Vec<Tri>,
}

/// Width of the stroked ribbon, in world units.
pub const STROKE_WIDTH: i64 = 10;

/// Half the stroke width: how far a rim vertex may sit from the curve.
pub const HALF_STROKE_WIDTH: i64 = 5;

/// Number of polyline samples that approximate one quadratic segment.
/// A fixed subdivision plays the role of the tessellation tolerance.
pub const CURVE_STEPS: i64 = 8;

/// Largest magnitude allowed for a control-point coordinate.
pub const COORD_LIMIT: i64 = 1_000_000;

/// Largest number of control points one curve may have.
pub const MAX_CONTROL_POINTS: usize = 64;

/// Largest magnitude a polyline sample coordinate can reach when the input
/// respects `COORD_LIMIT` and `MAX_CONTROL_POINTS`.
pub const SAMPLE_LIMIT: i64 = 127_000_000;

/// Largest magnitude a ribbon vertex coordinate can reach: a sample plus at
/// most half the stroke width.
pub const MESH_VERTEX_LIMIT: i64 = 127_000_005;

/// The mathematical image of a control-point sequence: coordinate pairs.
pub open spec fn pts_model(s: Seq<ControlPoint>) -> Seq<(int, int)> {
    s.map(|i: int, p: ControlPoint| (p.x as int, p.y as int))
}

/// Inner control of segment `i` (the segment from `pts[i]` to `pts[i + 1]`):
/// the reflection of the previous inner control about `pts[i]`. The first
/// segment's inner control coincides with its start point.
pub open spec fn ctrl_of(pts: Seq<(int, int)>, i: int) -> (int, int)
    decreases i,
{
    if i <= 0 {
        pts[0]
    } else {
        (2 * pts[i].0 - ctrl_of(pts, i - 1).0, 2 * pts[i].1 - ctrl_of(pts, i - 1).1)
    }
}

/// One coordinate of a quadratic Bezier with ends `a`, `b` and inner control
/// `c`, evaluated at parameter `j / CURVE_STEPS`, rounded down.
pub open spec fn qbez_coord(a: int, c: int, b: int, j: int) -> int {
    ((8 - j) * (8 - j) * a + 2 * j * (8 - j) * c + j * j * b) / 64
}

/// Number of polyline samples for `n` control points (`n >= 2`).
pub open spec fn polyline_len(n: int) -> int {
    1 + 8 * (n - 1)
}

/// Sample `k` of the polyline approximating the whole curve: sample 0 is the
/// anchor; segment `i` contributes samples `1 + 8 * i` through `8 * (i + 1)`.
pub open spec fn sample_at(pts: Seq<(int, int)>, k: int) -> (int, int) {
    if k <= 0 {
        pts[0]
    } else {
        let i = (k - 1) / 8;
        let j = ((k - 1) % 8) + 1;
        (
            qbez_coord(pts[i].0, ctrl_of(pts, i).0, pts[i + 1].0, j),
            qbez_coord(pts[i].1, ctrl_of(pts, i).1, pts[i + 1].1, j),
        )
    }
}

/// The whole idealized polyline of a control-point sequence with >= 2 points.
pub open spec fn curve_polyline(pts: Seq<(int, int)>) -> Seq<(int, int)> {
    Seq::new(polyline_len(pts.len() as int) as nat, |k: int| sample_at(pts, k))
}

/// The inputs the tessellator accepts: bounded count and coordinates.
pub open spec fn control_points_ok(s: Seq<ControlPoint>) -> bool {
    &&& s.len() <= MAX_CONTROL_POINTS
    &&& forall|i: int|
        0 <= i < s.len() ==> -COORD_LIMIT <= #[trigger] s[i].x <= COORD_LIMIT
            && -COORD_LIMIT <= s[i].y <= COORD_LIMIT
}

/// Builds the polyline of samples through which the ribbon will run.
/// Fewer than two control points yield an empty polyline.
pub fn smooth_polyline(points: &Vec<ControlPoint>) -> (pl: Vec<ControlPoint>)
    requires
        control_points_ok(points@),
    ensures
        points@.len() < 2 ==> pl@.len() == 0,
        points@.len() >= 2 ==> pl@.len() == polyline_len(points@.len() as int),
        forall|k: int|
            0 <= k < pl@.len() ==> ((#[trigger] pl@[k]).x as int, pl@[k].y as int)
                == sample_at(pts_model(points@), k),
        forall|k: int|
            0 <= k < pl@.len() ==> -SAMPLE_LIMIT <= (#[trigger] pl@[k]).x <= SAMPLE_LIMIT
                && -SAMPLE_LIMIT <= pl@[k].y <= SAMPLE_LIMIT,
{
    let mut pl: Vec<ControlPoint> = Vec::new();
    if points.len() < 2 {
        return pl;
    }
    let ghost ptsm = pts_model(points@);
    let first = points[0];
    pl.push(first);
    let mut prev_cx: i64 = first.x;
    let mut prev_cy: i64 = first.y;
    let mut i: usize = 0;
    while i + 1 < points.len()
        invariant
            control_points_ok(points@),
            points@.len() >= 2,
            ptsm == pts_model(points@),
            0 <= i < points@.len(),
            pl@.len() == 1 + 8 * i,
            (prev_cx as int, prev_cy as int) == ctrl_of(ptsm, i - 1),
            -(2 * i + 1) * COORD_LIMIT <= prev_cx <= (2 * i + 1) * COORD_LIMIT,
            -(2 * i + 1) * COORD_LIMIT <= prev_cy <= (2 * i + 1) * COORD_LIMIT,
            forall|k: int|
                0 <= k < pl@.len() ==> ((#[trigger] pl@[k]).x as int, pl@[k].y as int)
                    == sample_at(ptsm, k),
            forall|k: int|
                0 <= k < pl@.len() ==> -SAMPLE_LIMIT <= (#[trigger] pl@[k]).x <= SAMPLE_LIMIT
                    && -SAMPLE_LIMIT <= pl@[k].y <= SAMPLE_LIMIT,
        decreases points@.len() - i,
    {
        let cur = points[i];
        let nxt = points[i + 1];
        let cx: i64;
        let cy: i64;
        if i == 0 {
            cx = cur.x;
            cy = cur.y;
        } else {
            cx = 2 * cur.x - prev_cx;
            cy = 2 * cur.y - prev_cy;
        }
        assert((cx as int, cy as int) == ctrl_of(ptsm, i as int));
        assert(-(2 * i + 3) * COORD_LIMIT <= cx <= (2 * i + 3) * COORD_LIMIT);
        assert(-(2 * i + 3) * COORD_LIMIT <= cy <= (2 * i + 3) * COORD_LIMIT);
        let mut j: i64 = 1;
        while j <= 8
            invariant
                control_points_ok(points@),
                points@.len() >= 2,
                ptsm == pts_model(points@),
                0 <= i, i + 1 < points@.len(),
                1 <= j <= 9,
                (cx as int, cy as int) == ctrl_of(ptsm, i as int),
                -(2 * i + 3) * COORD_LIMIT <= cx <= (2 * i + 3) * COORD_LIMIT,
                -(2 * i + 3) * COORD_LIMIT <= cy <= (2 * i + 3) * COORD_LIMIT,
                cur == points@[i as int],
                nxt == points@[i + 1],
                pl@.len() == 1 + 8 * i + (j - 1),
                forall|k: int|
                    0 <= k < pl@.len() ==> ((#[trigger] pl@[k]).x as int, pl@[k].y as int)
                        == sample_at(ptsm, k),
                forall|k: int|
                    0 <= k < pl@.len() ==> -SAMPLE_LIMIT <= (#[trigger] pl@[k]).x <= SAMPLE_LIMIT
                        && -SAMPLE_LIMIT <= pl@[k].y <= SAMPLE_LIMIT,
            decreases 9 - j,
        {
            let d8: i64 = 8 - j;
            proof {
                assert(0 <= d8 * d8 <= 64 && 0 <= 2 * j * d8 <= 64 && 0 <= j * j <= 64
                    && d8 * d8 + 2 * j * d8 + j * j == 64) by (nonlinear_arith)
                    requires 1 <= j <= 8, d8 == 8 - j;
            }
            let w0: i64 = d8 * d8;
            let w1: i64 = 2 * j * d8;
            let w2: i64 = j * j;
            proof {
                assert(2 * i + 3 <= 127);
                lemma_weighted_term_bound(w0 as int, cur.x as int, 127_000_000);
                lemma_weighted_term_bound(w0 as int, cur.y as int, 127_000_000);
                lemma_weighted_term_bound(w1 as int, cx as int, 127_000_000);
                lemma_weighted_term_bound(w1 as int, cy as int, 127_000_000);
                lemma_weighted_term_bound(w2 as int, nxt.x as int, 127_000_000);
                lemma_weighted_term_bound(w2 as int, nxt.y as int, 127_000_000);
            }
            let numx: i64 = w0 * cur.x + w1 * cx + w2 * nxt.x;
            let numy: i64 = w0 * cur.y + w1 * cy + w2 * nxt.y;
            proof {
                assert(w0 + w1 + w2 == 64);
                assert(numx <= w0 * 127_000_000 + w1 * 127_000_000 + w2 * 127_000_000);
                assert(w0 * 127_000_000 + w1 * 127_000_000 + w2 * 127_000_000
                    == (w0 + w1 + w2) * 127_000_000) by (nonlinear_arith);
                assert(-64 * 127_000_000 <= numx <= 64 * 127_000_000);
                assert(-64 * 127_000_000 <= numy <= 64 * 127_000_000);
            }
            let sx = floor_div_64(numx);
            let sy = floor_div_64(numy);
            proof {
                lemma_div_64_bound(numx as int, 127_000_000);
                lemma_div_64_bound(numy as int, 127_000_000);
                lemma_sample_index(i as int, j as int);
                assert((sx as int, sy as int) == sample_at(ptsm, pl@.len() as int));
            }
            pl.push(ControlPoint { x: sx, y: sy });
            j = j + 1;
        }
        prev_cx = cx;
        prev_cy = cy;
        i = i + 1;
    }
    pl
}

/// `|w * v| <= w * b` for a nonnegative weight `w` and `|v| <= b`.
proof fn lemma_weighted_term_bound(w: int, v: int, b: int)
    by (nonlinear_arith)
    requires
        0 <= w,
        -b <= v <= b,
    ensures
        -(w * b) <= w * v <= w * b,
{
}

/// Rounding `num` down by 64 keeps it within `s` when `|num| <= 64 * s`.
proof fn lemma_div_64_bound(num: int, s: int)
    requires
        s >= 0,
        -64 * s <= num <= 64 * s,
    ensures
        -s <= num / 64 <= s,
{
    assert(-s <= num / 64 <= s) by (nonlinear_arith)
        requires s >= 0, -64 * s <= num <= 64 * s;
}

/// Sample `1 + 8 * i + (j - 1)` of the polyline belongs to segment `i`, step `j`.
proof fn lemma_sample_index(i: int, j: int)
    requires
        0 <= i,
        1 <= j <= 8,
    ensures
        (8 * i + j - 1) / 8 == i,
        ((8 * i + j - 1) % 8) + 1 == j,
{
    assert((8 * i + j - 1) / 8 == i && (8 * i + j - 1) % 8 == j - 1) by (nonlinear_arith)
        requires 0 <= i, 1 <= j <= 8;
}

/// Euclidean division by 64, exact on the whole `i64` range.
fn floor_div_64(num: i64) -> (r: i64)
    requires
        -9_000_000_000 <= num <= 9_000_000_000,
    ensures
        r as int == num as int / 64,
{
    let q = num.checked_div_euclid(64);
    q.unwrap()
}

/// Squared Euclidean length of a direction vector.
pub open spec fn len_sq(d: (int, int)) -> int {
    d.0 * d.0 + d.1 * d.1
}

/// `l` is the length of a vector of squared length `n`, rounded up.
pub open spec fn is_ceil_sqrt(n: int, l: int) -> bool {
    &&& l >= 0
    &&& n <= l * l
    &&& l > 0 ==> (l - 1) * (l - 1) < n
}

/// Magnitude of an integer.
pub open spec fn abs_i(v: int) -> int {
    if v < 0 {
        -v
    } else {
        v
    }
}

/// Direction of the polyline at sample `i`: the forward difference, or the
/// backward difference at the last sample.
pub open spec fn dir_at(pl: Seq<(int, int)>, i: int) -> (int, int) {
    if i + 1 < pl.len() {
        (pl[i + 1].0 - pl[i].0, pl[i + 1].1 - pl[i].1)
    } else {
        (pl[i].0 - pl[i - 1].0, pl[i].1 - pl[i - 1].1)
    }
}

/// Sideways offset of the two rims at a sample with direction `d`, where `l`
/// is the rounded-up length of `d`: the perpendicular of `d`, scaled to half
/// the stroke width, each component rounded toward zero. A sample with no
/// direction gets no offset.
pub open spec fn offset_from(d: (int, int), l: int) -> (int, int) {
    if d == (0int, 0int) {
        (0int, 0int)
    } else {
        let mx = abs_i(d.1) * HALF_STROKE_WIDTH / l;
        let my = abs_i(d.0) * HALF_STROKE_WIDTH / l;
        (
            if d.1 >= 0 {
                -mx
            } else {
                mx
            },
            if d.0 >= 0 {
                my
            } else {
                -my
            },
        )
    }
}

/// The two rim vertices of sample `i` sit at the sample plus and minus the
/// offset that `l` induces, in the plane.
pub open spec fn vertex_pair_at(pl: Seq<(int, int)>, vs: Seq<MeshVertex>, i: int, l: int) -> bool {
    let o = offset_from(dir_at(pl, i), l);
    &&& vs[2 * i].x as int == pl[i].0 + o.0
    &&& vs[2 * i].y as int == pl[i].1 + o.1
    &&& vs[2 * i].z == 0
    &&& vs[2 * i + 1].x as int == pl[i].0 - o.0
    &&& vs[2 * i + 1].y as int == pl[i].1 - o.1
    &&& vs[2 * i + 1].z == 0
}

/// Triangle `t` of the ribbon joins quad `t / 2`'s four rim vertices in the
/// fixed winding that keeps all triangles consistently oriented.
pub open spec fn tri_at(ts: Seq<Tri>, t: int) -> bool {
    let q = t / 2;
    if t % 2 == 0 {
        ts[t].a == 2 * q && ts[t].b == 2 * q + 1 && ts[t].c == 2 * q + 2
    } else {
        ts[t].a == 2 * q + 1 && ts[t].b == 2 * q + 3 && ts[t].c == 2 * q + 2
    }
}

/// Every triangle of the mesh references valid vertex indices.
pub open spec fn mesh_wf(m: StrokeMesh) -> bool {
    forall|t: int|
        0 <= t < m.triangles@.len() ==> (#[trigger] m.triangles@[t]).a < m.vertices@.len()
            && m.triangles@[t].b < m.vertices@.len() && m.triangles@[t].c < m.vertices@.len()
}

/// The ribbon a polyline with at least two samples must produce: two rim
/// vertices per sample, offset perpendicular to the local direction, and two
/// triangles per quad in a fixed winding. The rounded-up length `l` of each
/// direction is unique, so this pins every vertex exactly.
pub open spec fn ribbon_matches(pl: Seq<(int, int)>, m: StrokeMesh) -> bool {
    &&& m.vertices@.len() == 2 * pl.len()
    &&& m.triangles@.len() == 2 * (pl.len() - 1)
    &&& forall|i: int, l: int|
        0 <= i < pl.len() && #[trigger] is_ceil_sqrt(len_sq(dir_at(pl, i)), l)
            ==> vertex_pair_at(pl, m.vertices@, i, l)
    &&& forall|t: int| 0 <= t < m.triangles@.len() ==> #[trigger] tri_at(m.triangles@, t)
}

/// The rounded-up square root of a number is unique.
pub proof fn lemma_ceil_sqrt_unique(n: int, l1: int, l2: int)
    requires
        is_ceil_sqrt(n, l1),
        is_ceil_sqrt(n, l2),
    ensures
        l1 == l2,
{
    assert(l1 == l2) by (nonlinear_arith)
        requires
            l1 >= 0,
            n <= l1 * l1,
            l1 > 0 ==> (l1 - 1) * (l1 - 1) < n,
            l2 >= 0,
            n <= l2 * l2,
            l2 > 0 ==> (l2 - 1) * (l2 - 1) < n;
}

/// Every nonnegative number has a rounded-up square root.
pub proof fn lemma_ceil_sqrt_exists(n: int)
    requires
        0 <= n,
    ensures
        exists|l: int| #[trigger] is_ceil_sqrt(n, l),
    decreases n,
{
    if n == 0 {
        assert(is_ceil_sqrt(0, 0));
    } else {
        lemma_ceil_sqrt_exists(n - 1);
        let l0 = choose|l: int| #[trigger] is_ceil_sqrt(n - 1, l);
        if n <= l0 * l0 {
            assert(is_ceil_sqrt(n, l0));
        } else {
            assert(l0 * l0 < n <= (l0 + 1) * (l0 + 1)) by (nonlinear_arith)
                requires
                    l0 >= 0,
                    n - 1 <= l0 * l0,
                    l0 * l0 < n;
            assert(is_ceil_sqrt(n, l0 + 1));
        }
    }
}

/// Rounded-up integer square root by bisection.
fn ceil_sqrt(n: u64) -> (l: u64)
    requires
        n <= 0x4000_0000_0000_0000,
    ensures
        is_ceil_sqrt(n as int, l as int),
        l <= 0x8000_0000,
{
    let mut lo: u64 = 0;
    let mut hi: u64 = 0x8000_0000;
    while lo < hi
        invariant
            lo <= hi <= 0x8000_0000,
            n <= hi * hi,
            lo > 0 ==> (lo - 1) * (lo - 1) < n,
        decreases hi - lo,
    {
        let mid = lo + (hi - lo) / 2;
        proof {
            assert(mid * mid <= 0x4000_0000_0000_0000) by (nonlinear_arith)
                requires mid <= 0x8000_0000u64;
        }
        let sq = mid * mid;
        if sq >= n {
            hi = mid;
        } else {
            lo = mid + 1;
        }
    }
    lo
}

/// The component-wise rounded scaling of a vector to half the stroke width
/// keeps its Euclidean length within half the stroke width.
proof fn lemma_offset_norm(ax: int, ay: int, h: int, l: int)
    requires
        0 <= ax,
        0 <= ay,
        0 <= h,
        1 <= l,
        ax * ax + ay * ay <= l * l,
    ensures
        0 <= ax * h / l <= h,
        0 <= ay * h / l <= h,
        (ax * h / l) * (ax * h / l) + (ay * h / l) * (ay * h / l) <= h * h,
{
    let a = ax * h;
    let b = ay * h;
    assert(0 <= a && 0 <= b) by (nonlinear_arith)
        requires 0 <= ax, 0 <= ay, 0 <= h, a == ax * h, b == ay * h;
    let m = a / l;
    let n = b / l;
    vstd::arithmetic::div_mod::lemma_div_pos_is_pos(a, l);
    vstd::arithmetic::div_mod::lemma_div_pos_is_pos(b, l);
    vstd::arithmetic::div_mod::lemma_fundamental_div_mod(a, l);
    vstd::arithmetic::div_mod::lemma_fundamental_div_mod(b, l);
    vstd::arithmetic::div_mod::lemma_mod_pos_bound(a, l);
    vstd::arithmetic::div_mod::lemma_mod_pos_bound(b, l);
    assert(l * m <= a && l * n <= b);
    assert((l * m) * (l * m) <= a * a) by (nonlinear_arith)
        requires 0 <= l * m, l * m <= a;
    assert((l * n) * (l * n) <= b * b) by (nonlinear_arith)
        requires 0 <= l * n, l * n <= b;
    assert(a * a + b * b <= (l * l) * (h * h)) by (nonlinear_arith)
        requires
            a == ax * h,
            b == ay * h,
            0 <= h,
            ax * ax + ay * ay <= l * l;
    assert((l * m) * (l * m) + (l * n) * (l * n) == (l * l) * (m * m + n * n))
        by (nonlinear_arith);
    assert(m * m + n * n <= h * h) by (nonlinear_arith)
        requires
            1 <= l,
            (l * l) * (m * m + n * n) <= (l * l) * (h * h);
    assert(m <= h && n <= h) by (nonlinear_arith)
        requires
            0 <= m,
            0 <= n,
            0 <= h,
            m * m + n * n <= h * h;
}

/// Builds the two rims and the triangle strip of the ribbon around an already
/// sampled polyline. Fewer than two samples yield an empty mesh.
#[verifier::rlimit(100)]
pub fn stroke_ribbon(pl: &Vec<ControlPoint>) -> (m: StrokeMesh)
    requires
        pl@.len() <= 600,
        forall|k: int|
            0 <= k < pl@.len() ==> -SAMPLE_LIMIT <= (#[trigger] pl@[k]).x <= SAMPLE_LIMIT
                && -SAMPLE_LIMIT <= pl@[k].y <= SAMPLE_LIMIT,
    ensures
        pl@.len() < 2 ==> m.vertices@.len() == 0 && m.triangles@.len() == 0,
        pl@.len() >= 2 ==> ribbon_matches(pts_model(pl@), m) && mesh_wf(m),
        forall|v: int|
            0 <= v < m.vertices@.len() ==> -MESH_VERTEX_LIMIT <= (#[trigger] m.vertices@[v]).x
                <= MESH_VERTEX_LIMIT && -MESH_VERTEX_LIMIT <= m.vertices@[v].y <= MESH_VERTEX_LIMIT,
{
    let mut vertices: Vec<MeshVertex> = Vec::new();
    let mut triangles: Vec<Tri> = Vec::new();
    if pl.len() < 2 {
        return StrokeMesh { vertices, triangles };
    }
    let ghost plm = pts_model(pl@);
    let mut i: usize = 0;
    while i < pl.len()
        invariant
            2 <= pl@.len() <= 600,
            plm == pts_model(pl@),
            forall|k: int|
                0 <= k < pl@.len() ==> -SAMPLE_LIMIT <= (#[trigger] pl@[k]).x <= SAMPLE_LIMIT
                    && -SAMPLE_LIMIT <= pl@[k].y <= SAMPLE_LIMIT,
            i <= pl@.len(),
            vertices@.len() == 2 * i,
            forall|v: int|
                0 <= v < vertices@.len() ==> -MESH_VERTEX_LIMIT <= (#[trigger] vertices@[v]).x
                    <= MESH_VERTEX_LIMIT && -MESH_VERTEX_LIMIT <= vertices@[v].y
                    <= MESH_VERTEX_LIMIT,
            forall|k: int, l: int|
                0 <= k < i && #[trigger] is_ceil_sqrt(len_sq(dir_at(plm, k)), l)
                    ==> vertex_pair_at(plm, vertices@, k, l),
        decreases pl@.len() - i,
    {
        let dx: i64;
        let dy: i64;
        if i + 1 < pl.len() {
            dx = pl[i + 1].x - pl[i].x;
            dy = pl[i + 1].y - pl[i].y;
        } else {
            dx = pl[i].x - pl[i - 1].x;
            dy = pl[i].y - pl[i - 1].y;
        }
        assert((dx as int, dy as int) == dir_at(plm, i as int));
        let ghost mut lw: int = 0;
        let ox: i64;
        let oy: i64;
        if dx == 0 && dy == 0 {
            ox = 0;
            oy = 0;
            assert(is_ceil_sqrt(len_sq(dir_at(plm, i as int)), 0));
            assert((ox as int, oy as int) == offset_from(dir_at(plm, i as int), 0));
        } else {
            let adx = if dx < 0 { -dx } else { dx };
            let ady = if dy < 0 { -dy } else { dy };
            proof {
                assert(adx * adx <= 260_000_000 * 260_000_000 && ady * ady
                    <= 260_000_000 * 260_000_000 && adx * adx == dx * dx && ady * ady == dy * dy
                    && adx * adx + ady * ady >= 1) by (nonlinear_arith)
                    requires
                        0 <= adx <= 260_000_000,
                        0 <= ady <= 260_000_000,
                        adx == abs_i(dx as int),
                        ady == abs_i(dy as int),
                        !(dx == 0 && dy == 0);
            }
            let nsq: i64 = adx * adx + ady * ady;
            let l: u64 = ceil_sqrt(nsq as u64);
            proof {
                assert(l >= 1) by {
                    if l == 0 {
                        assert(nsq as int <= 0);
                    }
                };
            }
            let mxu: u64 = (ady as u64) * 5 / l;
            let myu: u64 = (adx as u64) * 5 / l;
            proof {
                lemma_offset_norm(ady as int, adx as int, 5, l as int);
                assert(mxu as int == abs_i(dy as int) * HALF_STROKE_WIDTH / (l as int));
                assert(myu as int == abs_i(dx as int) * HALF_STROKE_WIDTH / (l as int));
            }
            let mx = mxu as i64;
            let my = myu as i64;
            ox = if dy >= 0 { -mx } else { mx };
            oy = if dx >= 0 { my } else { -my };
            proof {
                lw = l as int;
            }
            assert((ox as int, oy as int) == offset_from(dir_at(plm, i as int), lw));
            assert(is_ceil_sqrt(len_sq(dir_at(plm, i as int)), lw));
        }
        let px = pl[i].x;
        let py = pl[i].y;
        let ghost old_vs = vertices@;
        vertices.push(MeshVertex { x: px + ox, y: py + oy, z: 0 });
        vertices.push(MeshVertex { x: px - ox, y: py - oy, z: 0 });
        proof {
            assert forall|k: int, l: int|
                0 <= k < i + 1 && #[trigger] is_ceil_sqrt(len_sq(dir_at(plm, k)), l)
                    implies vertex_pair_at(plm, vertices@, k, l)
            by {
                if k < i {
                    assert(vertex_pair_at(plm, old_vs, k, l));
                    assert(vertex_pair_at(plm, vertices@, k, l));
                } else {
                    lemma_ceil_sqrt_unique(len_sq(dir_at(plm, k)), l, lw);
                    assert(vertex_pair_at(plm, vertices@, i as int, lw));
                }
            }
        }
        i = i + 1;
    }
    let mut q: usize = 0;
    while q + 1 < pl.len()
        invariant
            2 <= pl@.len() <= 600,
            q <= pl@.len() - 1,
            triangles@.len() == 2 * q,
            forall|t: int| 0 <= t < triangles@.len() ==> #[trigger] tri_at(triangles@, t),
        decreases pl@.len() - q,
    {
        let ghost before = triangles@;
        triangles.push(Tri { a: 2 * q, b: 2 * q + 1, c: 2 * q + 2 });
        triangles.push(Tri { a: 2 * q + 1, b: 2 * q + 3, c: 2 * q + 2 });
        proof {
            assert forall|t: int| 0 <= t < triangles@.len() implies #[trigger] tri_at(triangles@, t)
            by {
                if t < before.len() {
                    assert(tri_at(before, t));
                    assert(triangles@[t] == before[t]);
                } else {
                    lemma_sample_index_2(q as int, t);
                }
            }
        }
        q = q + 1;
    }
    let m = StrokeMesh { vertices, triangles };
    proof {
        assert forall|t: int|
            0 <= t < m.triangles@.len() implies (#[trigger] m.triangles@[t]).a < m.vertices@.len()
                && m.triangles@[t].b < m.vertices@.len() && m.triangles@[t].c < m.vertices@.len()
        by {
            assert(tri_at(m.triangles@, t));
            lemma_tri_index_bound(t, pl@.len() as int);
        }
    }
    m
}

/// Division facts placing the two triangles of quad `q` at slots `2q`, `2q + 1`.
proof fn lemma_sample_index_2(q: int, t: int)
    requires
        0 <= q,
        t == 2 * q || t == 2 * q + 1,
    ensures
        t / 2 == q,
        t == 2 * q ==> t % 2 == 0,
        t == 2 * q + 1 ==> t % 2 == 1,
{
    assert((2 * q) / 2 == q && (2 * q) % 2 == 0 && (2 * q + 1) / 2 == q && (2 * q + 1) % 2 == 1)
        by (nonlinear_arith)
        requires 0 <= q;
}

/// Tessellates the silhouette curve of a platform: the smooth polyline
/// through the control points, stroked into a constant-width triangulated
/// ribbon. Fewer than two control points yield an empty mesh, not an error.
pub fn create_smooth_spline_mesh_from(points: &Vec<ControlPoint>) -> (m: StrokeMesh)
    requires
        control_points_ok(points@),
    ensures
        points@.len() < 2 ==> m.vertices@.len() == 0 && m.triangles@.len() == 0,
        points@.len() >= 2 ==> {
            &&& m.vertices@.len() == 2 * polyline_len(points@.len() as int)
            &&& m.triangles@.len() == 2 * (polyline_len(points@.len() as int) - 1)
            &&& m.triangles@.len() > 0
            &&& ribbon_matches(curve_polyline(pts_model(points@)), m)
            &&& mesh_wf(m)
        },
        forall|v: int|
            0 <= v < m.vertices@.len() ==> -MESH_VERTEX_LIMIT <= (#[trigger] m.vertices@[v]).x
                <= MESH_VERTEX_LIMIT && -MESH_VERTEX_LIMIT <= m.vertices@[v].y <= MESH_VERTEX_LIMIT,
{
    let pl = smooth_polyline(points);
    proof {
        if points@.len() >= 2 {
            assert(pts_model(pl@) =~= curve_polyline(pts_model(points@)));
        }
    }
    stroke_ribbon(&pl)
}

/// Law: the tessellation stays near the curve. Each polyline sample of a
/// ribbon owns two rim vertices placed symmetrically about it, at most half
/// the stroke width away (measured by the squared Euclidean distance).
pub proof fn lemma_ribbon_near_curve(pl: Seq<(int, int)>, m: StrokeMesh, i: int)
    requires
        ribbon_matches(pl, m),
        0 <= i < pl.len(),
    ensures
        exists|ox: int, oy: int|
            {
                &&& #[trigger] (ox * ox) + #[trigger] (oy * oy) <= HALF_STROKE_WIDTH
                    * HALF_STROKE_WIDTH
                &&& m.vertices@[2 * i].x as int == pl[i].0 + ox
                &&& m.vertices@[2 * i].y as int == pl[i].1 + oy
                &&& m.vertices@[2 * i + 1].x as int == pl[i].0 - ox
                &&& m.vertices@[2 * i + 1].y as int == pl[i].1 - oy
            },
{
    let d = dir_at(pl, i);
    let n = len_sq(d);
    assert(n >= 0) by (nonlinear_arith)
        requires n == d.0 * d.0 + d.1 * d.1;
    lemma_ceil_sqrt_exists(n);
    let l = choose|l: int| #[trigger] is_ceil_sqrt(n, l);
    assert(vertex_pair_at(pl, m.vertices@, i, l));
    let o = offset_from(d, l);
    if d == (0int, 0int) {
        assert((o.0 * o.0) + (o.1 * o.1) <= HALF_STROKE_WIDTH * HALF_STROKE_WIDTH);
    } else {
        assert(n >= 1) by (nonlinear_arith)
            requires n == d.0 * d.0 + d.1 * d.1, !(d.0 == 0 && d.1 == 0);
        assert(l >= 1);
        assert(abs_i(d.1) * abs_i(d.1) + abs_i(d.0) * abs_i(d.0) <= l * l) by (nonlinear_arith)
            requires
                n == d.0 * d.0 + d.1 * d.1,
                n <= l * l,
                abs_i(d.1) == if d.1 < 0 { -d.1 } else { d.1 },
                abs_i(d.0) == if d.0 < 0 { -d.0 } else { d.0 };
        lemma_offset_norm(abs_i(d.1), abs_i(d.0), HALF_STROKE_WIDTH as int, l);
        let mx = abs_i(d.1) * HALF_STROKE_WIDTH / l;
        let my = abs_i(d.0) * HALF_STROKE_WIDTH / l;
        assert((o.0 * o.0) + (o.1 * o.1) <= HALF_STROKE_WIDTH * HALF_STROKE_WIDTH)
            by (nonlinear_arith)
            requires
                mx * mx + my * my <= HALF_STROKE_WIDTH * HALF_STROKE_WIDTH,
                o.0 == mx || o.0 == -mx,
                o.1 == my || o.1 == -my;
    }
    assert((o.0 * o.0) + (o.1 * o.1) <= HALF_STROKE_WIDTH * HALF_STROKE_WIDTH
        && m.vertices@[2 * i].x as int == pl[i].0 + o.0
        && m.vertices@[2 * i].y as int == pl[i].1 + o.1
        && m.vertices@[2 * i + 1].x as int == pl[i].0 - o.0
        && m.vertices@[2 * i + 1].y as int == pl[i].1 - o.1);
}

/// Triangle `t` of a ribbon over `n` samples stays within `2 * n` vertices.
proof fn lemma_tri_index_bound(t: int, n: int)
    requires
        2 <= n,
        0 <= t < 2 * (n - 1),
    ensures
        2 * (t / 2) + 3 < 2 * n,
        0 <= t / 2,
{
    assert(0 <= t / 2 && 2 * (t / 2) <= t && t % 2 < 2) by (nonlinear_arith)
        requires 0 <= t;
    assert(2 * (t / 2) + 3 < 2 * n) by (nonlinear_arith)
        requires 0 <= t < 2 * (n - 1), 2 * (t / 2) <= t;
}

} // verus!
