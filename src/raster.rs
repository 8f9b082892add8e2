//! Triangle setup, the per-pixel barycentric test, and the depth-buffer update.

use crate::args::Mode;
use crate::grid::{grid_cells, grid_get, grid_set};
use crate::space::{
    lemma_small_product, lemma_window_to_pixel_monotonic_clamped, Fragment, Point, Space, MAX_EXTENT,
};
use array2d::Array2D;
use std::ops::RangeInclusive;
use vstd::arithmetic::div_mod::{
    lemma_div_is_ordered, lemma_div_multiples_vanish, lemma_fundamental_div_mod,
    lemma_fundamental_div_mod_converse,
};
use vstd::prelude::*;

verus! {

/// A vector of pixel-space integers.
pub struct Vec2 {
    pub x: int,
    pub y: int,
}

pub open spec fn vec_between(from: Fragment, to_x: int, to_y: int) -> Vec2 {
    Vec2 { x: to_x - from.x, y: to_y - from.y }
}

pub open spec fn dot(u: Vec2, v: Vec2) -> int {
    u.x * v.x + u.y * v.y
}

/// `(|ab|^2 |ac|^2 - (ab . ac)^2)`: proportional to the square of the triangle's area.
pub open spec fn total_area(a: Fragment, b: Fragment, c: Fragment) -> int {
    let pab = vec_between(a, b.x as int, b.y as int);
    let pac = vec_between(a, c.x as int, c.y as int);
    dot(pab, pab) * dot(pac, pac) - dot(pab, pac) * dot(pab, pac)
}

/// Numerator of the barycentric weight of `b` at pixel `(x, y)`; the weight is this over
/// `total_area`.
pub open spec fn beta_num(a: Fragment, b: Fragment, c: Fragment, x: int, y: int) -> int {
    let pab = vec_between(a, b.x as int, b.y as int);
    let pac = vec_between(a, c.x as int, c.y as int);
    let pav = vec_between(a, x, y);
    dot(pac, pac) * dot(pav, pab) - dot(pab, pac) * dot(pav, pac)
}

/// Numerator of the barycentric weight of `c` at pixel `(x, y)`.
pub open spec fn gamma_num(a: Fragment, b: Fragment, c: Fragment, x: int, y: int) -> int {
    let pab = vec_between(a, b.x as int, b.y as int);
    let pac = vec_between(a, c.x as int, c.y as int);
    let pav = vec_between(a, x, y);
    dot(pab, pab) * dot(pav, pac) - dot(pab, pac) * dot(pav, pab)
}

/// Numerator of the barycentric weight of `a` at pixel `(x, y)`: the three weights sum to 1.
pub open spec fn alpha_num(a: Fragment, b: Fragment, c: Fragment, x: int, y: int) -> int {
    total_area(a, b, c) - beta_num(a, b, c, x, y) - gamma_num(a, b, c, x, y)
}

/// `num / total` lies in the closed interval `[0, 1]` (for `total > 0`).
pub open spec fn in_unit_interval(num: int, total: int) -> bool {
    0 <= num <= total
}

/// Pixel `(x, y)` lies inside the triangle, edges and vertices included: the triangle is not
/// degenerate and all three barycentric weights lie in `[0, 1]`.
pub open spec fn covers(a: Fragment, b: Fragment, c: Fragment, x: int, y: int) -> bool {
    let t = total_area(a, b, c);
    &&& t > 0
    &&& in_unit_interval(alpha_num(a, b, c, x, y), t)
    &&& in_unit_interval(beta_num(a, b, c, x, y), t)
    &&& in_unit_interval(gamma_num(a, b, c, x, y), t)
}

/// Numerator and denominator of the wireframe threshold: 3 / 10.
pub const EPSILON_NUM: i128 = 3;
pub const EPSILON_DEN: i128 = 10;

/// `|num / total| < EPSILON` (for `total > 0`).
pub open spec fn below_epsilon(num: int, total: int) -> bool {
    let magnitude = if num < 0 {
        -num
    } else {
        num
    };
    EPSILON_DEN * magnitude < EPSILON_NUM * total
}

/// All three barycentric weights at `(x, y)` are below the wireframe threshold.
pub open spec fn near_edges(a: Fragment, b: Fragment, c: Fragment, x: int, y: int) -> bool {
    let t = total_area(a, b, c);
    &&& below_epsilon(alpha_num(a, b, c, x, y), t)
    &&& below_epsilon(beta_num(a, b, c, x, y), t)
    &&& below_epsilon(gamma_num(a, b, c, x, y), t)
}

/// The depth at `(x, y)` interpolated from the vertex depths with the barycentric weights,
/// rounded down to a whole window unit.
pub open spec fn depth_at(a: Fragment, b: Fragment, c: Fragment, x: int, y: int) -> int {
    (alpha_num(a, b, c, x, y) * a.z + beta_num(a, b, c, x, y) * b.z + gamma_num(a, b, c, x, y)
        * c.z) / total_area(a, b, c)
}

pub open spec fn min3(p: int, q: int, r: int) -> int {
    if p <= q && p <= r {
        p
    } else if q <= r {
        q
    } else {
        r
    }
}

pub open spec fn max3(p: int, q: int, r: int) -> int {
    if p >= q && p >= r {
        p
    } else if q >= r {
        q
    } else {
        r
    }
}

/// Pixel `(x, y)` lies in the triangle's bounding box.
pub open spec fn in_box(a: Fragment, b: Fragment, c: Fragment, x: int, y: int) -> bool {
    &&& min3(a.x as int, b.x as int, c.x as int) <= x <= max3(a.x as int, b.x as int, c.x as int)
    &&& min3(a.y as int, b.y as int, c.y as int) <= y <= max3(a.y as int, b.y as int, c.y as int)
}

/// Rasterizing the triangle in `mode` writes pixel `(x, y)`.
pub open spec fn writes(a: Fragment, b: Fragment, c: Fragment, mode: Mode, x: int, y: int) -> bool {
    &&& covers(a, b, c, x, y)
    &&& (mode == Mode::Depth || near_edges(a, b, c, x, y))
}

/// Nearest wins: the cell keeps the smaller of its depth and `z`.
pub open spec fn nearer(cell: i64, z: int) -> i64 {
    if z < cell {
        z as i64
    } else {
        cell
    }
}

/// The depth test of one fragment at column `x`, row `y`: cells off the grid are ignored.
pub open spec fn depth_test(cells: Seq<Seq<i64>>, x: int, y: int, z: int) -> Seq<Seq<i64>> {
    Seq::new(
        cells.len(),
        |r: int|
            Seq::new(
                cells[r].len(),
                |col: int|
                    if r == y && col == x {
                        nearer(cells[r][col], z)
                    } else {
                        cells[r][col]
                    },
            ),
    )
}

/// The cells after rasterizing triangle `(a, b, c)` in `mode`.
pub open spec fn paint(cells: Seq<Seq<i64>>, a: Fragment, b: Fragment, c: Fragment, mode: Mode) -> Seq<
    Seq<i64>,
> {
    Seq::new(
        cells.len(),
        |r: int|
            Seq::new(
                cells[r].len(),
                |col: int|
                    if writes(a, b, c, mode, col, r) {
                        nearer(cells[r][col], depth_at(a, b, c, col, r))
                    } else {
                        cells[r][col]
                    },
            ),
    )
}

/// A fragment that lies on a pixel grid no larger than `MAX_EXTENT` on either side, with the
/// depth of a window-space point.
pub open spec fn on_grid(f: Fragment) -> bool {
    &&& 0 <= f.x < MAX_EXTENT
    &&& 0 <= f.y < MAX_EXTENT
    &&& -0x8000_0000 <= f.z <= 0x8000_0000
}

/// `(r^2 + s^2)(u p + w q) - (p r + q s)(u r + w s) == (p s - q r)(u s - w r)`: one of the
/// three identities behind `lemma_weights_share_cross`.
proof fn lemma_beta_identity(p: int, q: int, r: int, s: int, u: int, w: int)
    ensures
        (r * r + s * s) * (u * p + w * q) - (p * r + q * s) * (u * r + w * s) == (p * s - q * r)
            * (u * s - w * r),
{
    let rs = r * r + s * s;
    let prqs = p * r + q * s;
    let cr = p * s - q * r;
    assert(rs * (u * p + w * q) == u * (p * rs) + w * (q * rs)) by (nonlinear_arith);
    assert(prqs * (u * r + w * s) == u * (r * prqs) + w * (s * prqs)) by (nonlinear_arith);
    assert(p * rs - r * prqs == s * cr) by (nonlinear_arith)
        requires
            rs == r * r + s * s,
            prqs == p * r + q * s,
            cr == p * s - q * r,
    ;
    assert(q * rs - s * prqs == -(r * cr)) by (nonlinear_arith)
        requires
            rs == r * r + s * s,
            prqs == p * r + q * s,
            cr == p * s - q * r,
    ;
    assert(u * (p * rs) + w * (q * rs) - (u * (r * prqs) + w * (s * prqs)) == u * (p * rs - r
        * prqs) + w * (q * rs - s * prqs)) by (nonlinear_arith);
    assert(u * (s * cr) + w * (-(r * cr)) == cr * (u * s - w * r)) by (nonlinear_arith);
}

/// The weights' numerators share the factor `cross = ab x ac`, and `total_area == cross^2`
/// (Lagrange's identity). With `ab = (p, q)`, `ac = (r, s)`, `av = (u, w)`.
proof fn lemma_weights_share_cross(p: int, q: int, r: int, s: int, u: int, w: int)
    ensures
        (r * r + s * s) * (u * p + w * q) - (p * r + q * s) * (u * r + w * s) == (p * s - q * r)
            * (u * s - w * r),
        (p * p + q * q) * (u * r + w * s) - (p * r + q * s) * (u * p + w * q) == (p * s - q * r)
            * (p * w - q * u),
        (p * p + q * q) * (r * r + s * s) - (p * r + q * s) * (p * r + q * s) == (p * s - q * r)
            * (p * s - q * r),
{
    lemma_beta_identity(p, q, r, s, u, w);
    // The weight of `c` is that of `b` with the roles of the two edges swapped.
    lemma_beta_identity(r, s, p, q, u, w);
    assert(r * p + s * q == p * r + q * s) by (nonlinear_arith);
    assert((r * q - s * p) * (u * q - w * p) == (p * s - q * r) * (p * w - q * u)) by (nonlinear_arith);
    // Lagrange's identity is the first identity at `av = ab`.
    lemma_beta_identity(p, q, r, s, p, q);
    assert((r * r + s * s) * (p * p + q * q) == (p * p + q * q) * (r * r + s * s)) by (nonlinear_arith);
}

/// The integer row and column ranges that cover a triangle; it may reach past the image.
#[derive(Clone, Copy, Debug, PartialEq, Eq)]
pub struct BoundingBox {
    pub x_min: i64,
    pub x_max: i64,
    pub y_min: i64,
    pub y_max: i64,
}

impl BoundingBox {
    /// The rows the box covers: the range of `y`, both ends included.
    pub fn row_range(&self) -> (r: RangeInclusive<i64>)
        ensures
            r@.start == self.y_min,
            r@.end == self.y_max,
            !r@.exhausted,
    {
        self.y_min..=self.y_max
    }

    /// The columns the box covers: the range of `x`, both ends included.
    pub fn column_range(&self) -> (r: RangeInclusive<i64>)
        ensures
            r@.start == self.x_min,
            r@.end == self.x_max,
            !r@.exhausted,
    {
        self.x_min..=self.x_max
    }
}

/// What every pixel test of one triangle shares: the edge vectors `b - a` and `c - a`, their
/// dot product, and `total_area`.
#[derive(Clone, Copy, Debug, PartialEq, Eq)]
pub struct BaryCentricConstants {
    pub pab: Fragment,
    pub pac: Fragment,
    pub pabac: i64,
    pub total_area: i128,
}

/// A triangle in pixel space with its bounding box and barycentric constants.
#[derive(Clone, Copy, Debug, PartialEq, Eq)]
pub struct Triangle {
    pub a: Fragment,
    pub b: Fragment,
    pub c: Fragment,
    pub bounding_box: BoundingBox,
    pub barycentric_constants: BaryCentricConstants,
}

impl BaryCentricConstants {
    /// The constants of the triangle with pixel-space vertices `a`, `b`, `c`.
    pub fn from_vertices(a: Fragment, b: Fragment, c: Fragment) -> (k: BaryCentricConstants)
        requires
            on_grid(a),
            on_grid(b),
            on_grid(c),
        ensures
            k.pab.x == b.x - a.x,
            k.pab.y == b.y - a.y,
            k.pac.x == c.x - a.x,
            k.pac.y == c.y - a.y,
            k.pabac == dot(vec_between(a, b.x as int, b.y as int), vec_between(a, c.x as int, c.y as int)),
            k.total_area == total_area(a, b, c),
    {
        let pab = b.sub(a);
        let pac = c.sub(a);
        let pabac = pab.dot(pac);
        let ab2 = pab.dot_self() as i128;
        let ac2 = pac.dot_self() as i128;
        let pabac_wide = pabac as i128;
        assert(0 <= ab2 * ac2 < 0x4000_0000_0000_0000_0000_0000_0000_0000) by (nonlinear_arith)
            requires
                0 <= ab2 < 0x8000_0000_0000_0000,
                0 <= ac2 < 0x8000_0000_0000_0000,
        ;
        assert(0 <= pabac_wide * pabac_wide <= 0x4000_0000_0000_0000_0000_0000_0000_0000)
            by (nonlinear_arith)
            requires
                -0x8000_0000_0000_0000 <= pabac_wide < 0x8000_0000_0000_0000,
        ;
        let total_area = ab2 * ac2 - pabac_wide * pabac_wide;
        BaryCentricConstants { pab, pac, pabac, total_area }
    }
}

fn min3_exec(p: i64, q: i64, r: i64) -> (m: i64)
    ensures
        m == min3(p as int, q as int, r as int),
{
    if p <= q && p <= r {
        p
    } else if q <= r {
        q
    } else {
        r
    }
}

fn max3_exec(p: i64, q: i64, r: i64) -> (m: i64)
    ensures
        m == max3(p as int, q as int, r as int),
{
    if p >= q && p >= r {
        p
    } else if q >= r {
        q
    } else {
        r
    }
}

impl Triangle {
    /// The vertices lie on the grid, and the box and constants are those of the vertices.
    pub open spec fn wf(self) -> bool {
        let (a, b, c) = (self.a, self.b, self.c);
        let k = self.barycentric_constants;
        &&& on_grid(a)
        &&& on_grid(b)
        &&& on_grid(c)
        &&& self.bounding_box.x_min == min3(a.x as int, b.x as int, c.x as int)
        &&& self.bounding_box.x_max == max3(a.x as int, b.x as int, c.x as int)
        &&& self.bounding_box.y_min == min3(a.y as int, b.y as int, c.y as int)
        &&& self.bounding_box.y_max == max3(a.y as int, b.y as int, c.y as int)
        &&& k.pab.x == b.x - a.x
        &&& k.pab.y == b.y - a.y
        &&& k.pac.x == c.x - a.x
        &&& k.pac.y == c.y - a.y
        &&& k.pabac == dot(vec_between(a, b.x as int, b.y as int), vec_between(a, c.x as int, c.y as int))
        &&& k.total_area == total_area(a, b, c)
    }

    /// Maps the three window-space vertices to pixel space and sets up the triangle.
    pub fn new(space: &Space, w_a: Point, w_b: Point, w_c: Point) -> (t: Triangle)
        requires
            space.wf(),
        ensures
            t.wf(),
            t.a == space.fragment_of(w_a),
            t.b == space.fragment_of(w_b),
            t.c == space.fragment_of(w_c),
    {
        let a = space.window_to_pixel(w_a);
        let b = space.window_to_pixel(w_b);
        let c = space.window_to_pixel(w_c);
        Triangle {
            a,
            b,
            c,
            bounding_box: BoundingBox {
                x_min: min3_exec(a.x, b.x, c.x),
                x_max: max3_exec(a.x, b.x, c.x),
                y_min: min3_exec(a.y, b.y, c.y),
                y_max: max3_exec(a.y, b.y, c.y),
            },
            barycentric_constants: BaryCentricConstants::from_vertices(a, b, c),
        }
    }
}

/// `(k * a) / (k * b) == a / b` for `k, b > 0`.
proof fn lemma_div_common_factor(a: int, b: int, k: int)
    requires
        0 < b,
        0 < k,
    ensures
        (k * a) / (k * b) == a / b,
{
    lemma_fundamental_div_mod(a, b);
    let q = a / b;
    let r = a % b;
    assert(k * a == q * (k * b) + k * r && 0 <= k * r < k * b) by (nonlinear_arith)
        requires
            a == b * q + r,
            0 <= r < b,
            0 < k,
    ;
    lemma_fundamental_div_mod_converse(k * a, k * b, q, k * r);
}

/// Rounds `n / d` down, for `d > 0`.
fn floor_div(n: i128, d: i128) -> (q: i128)
    requires
        d > 0,
        -0x1000_0000_0000_0000_0000_0000_0000_0000 < n < 0x1000_0000_0000_0000_0000_0000_0000_0000,
        d < 0x1000_0000_0000_0000_0000_0000_0000_0000,
    ensures
        q == n / d,
{
    if n >= 0 {
        n / d
    } else {
        let m: i128 = 0 - n;
        let up: i128 = m + d - 1;
        let c: i128 = up / d;
        proof {
            lemma_fundamental_div_mod(up as int, d as int);
            let r = up % d;
            assert(n == (-c) * d + (d - 1 - r) && 0 <= d - 1 - r < d) by (nonlinear_arith)
                requires
                    up == d * c + r,
                    0 <= r < d,
                    up == -n + d - 1,
            ;
            lemma_fundamental_div_mod_converse(n as int, d as int, -c, d - 1 - r);
            assert(0 <= c <= up) by (nonlinear_arith)
                requires
                    up == d * c + r,
                    0 <= r < d,
                    up >= 0,
            ;
        }
        0 - c
    }
}

/// The barycentric weights of one pixel as `alpha / denom`, `beta / denom` and
/// `gamma / denom`, and the depth `z` interpolated there.
#[derive(Clone, Copy, Debug, PartialEq, Eq)]
pub struct BarycentricResult {
    pub z: i128,
    pub alpha: i128,
    pub beta: i128,
    pub gamma: i128,
    pub denom: i128,
}

impl BarycentricResult {
    pub open spec fn wf(self) -> bool {
        &&& 0 < self.denom < 0x1_0000_0000_0000_0000
        &&& -0x4_0000_0000_0000_0000 < self.alpha < 0x4_0000_0000_0000_0000
        &&& -0x4_0000_0000_0000_0000 < self.beta < 0x4_0000_0000_0000_0000
        &&& -0x4_0000_0000_0000_0000 < self.gamma < 0x4_0000_0000_0000_0000
    }

    /// The three fractions are the barycentric weights of pixel `(x, y)` in `(a, b, c)`.
    pub open spec fn weights_of(self, a: Fragment, b: Fragment, c: Fragment, x: int, y: int) -> bool {
        let t = total_area(a, b, c);
        &&& self.alpha * t == alpha_num(a, b, c, x, y) * self.denom
        &&& self.beta * t == beta_num(a, b, c, x, y) * self.denom
        &&& self.gamma * t == gamma_num(a, b, c, x, y) * self.denom
    }
}

/// A weight times a vertex depth stays below `2^98` in magnitude.
proof fn lemma_weighted_depth_bound(weight: int, z: int)
    requires
        -0x4_0000_0000_0000_0000 < weight < 0x4_0000_0000_0000_0000,
        -0x8000_0000 <= z <= 0x8000_0000,
    ensures
        -0x4_0000_0000_0000_0000_0000_0000 <= weight * z <= 0x4_0000_0000_0000_0000_0000_0000,
{
    assert(-0x4_0000_0000_0000_0000_0000_0000 <= weight * z <= 0x4_0000_0000_0000_0000_0000_0000)
        by (nonlinear_arith)
        requires
            -0x4_0000_0000_0000_0000 < weight < 0x4_0000_0000_0000_0000,
            -0x8000_0000 <= z <= 0x8000_0000,
    ;
}

/// Normalising the sign of the shared factor `cross` leaves each weight unchanged.
proof fn lemma_normalized_weights(cross: int, bc: int, gc: int, denom: int, beta: int, gamma: int)
    requires
        (cross > 0 && denom == cross && beta == bc && gamma == gc) || (cross < 0 && denom == -cross
            && beta == -bc && gamma == -gc),
    ensures
        cross * cross == denom * denom,
        cross * bc == denom * beta,
        cross * gc == denom * gamma,
        cross * cross - cross * bc - cross * gc == denom * (denom - beta - gamma),
{
    assert(cross * cross == denom * denom && cross * bc == denom * beta && cross * gc == denom
        * gamma) by (nonlinear_arith)
        requires
            (cross > 0 && denom == cross && beta == bc && gamma == gc) || (cross < 0 && denom
                == -cross && beta == -bc && gamma == -gc),
    ;
    assert(denom * (denom - beta - gamma) == denom * denom - denom * beta - denom * gamma)
        by (nonlinear_arith);
}

/// `n * t == m * d` with `t, d > 0`: `n` and `m` are the same fraction over different
/// denominators.
proof fn lemma_same_fraction(n: int, d: int, m: int, t: int)
    requires
        d > 0,
        t > 0,
        n * t == m * d,
    ensures
        in_unit_interval(n, d) == in_unit_interval(m, t),
        below_epsilon(n, d) == below_epsilon(m, t),
{
    assert(in_unit_interval(n, d) == in_unit_interval(m, t)) by (nonlinear_arith)
        requires
            d > 0,
            t > 0,
            n * t == m * d,
    ;
    let nm = if n < 0 {
        -n
    } else {
        n
    };
    let mm = if m < 0 {
        -m
    } else {
        m
    };
    assert(nm * t == mm * d) by (nonlinear_arith)
        requires
            d > 0,
            t > 0,
            n * t == m * d,
            nm == if n < 0 {
                -n
            } else {
                n
            },
            mm == if m < 0 {
                -m
            } else {
                m
            },
    ;
    assert((10 * nm < 3 * d) == (10 * mm < 3 * t)) by (nonlinear_arith)
        requires
            d > 0,
            t > 0,
            nm * t == mm * d,
    ;
}

impl Triangle {
    /// The barycentric weights of pixel `v` and the depth interpolated there. The triangle
    /// must not be degenerate.
    pub fn barycentric_coordinates(&self, v: &Fragment) -> (r: BarycentricResult)
        requires
            self.wf(),
            self.barycentric_constants.total_area != 0,
            0 <= v.x < MAX_EXTENT,
            0 <= v.y < MAX_EXTENT,
        ensures
            r.wf(),
            r.weights_of(self.a, self.b, self.c, v.x as int, v.y as int),
            r.z == depth_at(self.a, self.b, self.c, v.x as int, v.y as int),
            r.alpha + r.beta + r.gamma == r.denom,
            r.z == (r.alpha * self.a.z + r.beta * self.b.z + r.gamma * self.c.z) / (r.denom as int),
    {
        let pav = v.sub(self.a);
        let k = &self.barycentric_constants;
        let p = k.pab.x as i128;
        let q = k.pab.y as i128;
        let r = k.pac.x as i128;
        let s = k.pac.y as i128;
        let u = pav.x as i128;
        let w = pav.y as i128;
        proof {
            lemma_small_product(p as int, s as int);
            lemma_small_product(q as int, r as int);
            lemma_small_product(u as int, s as int);
            lemma_small_product(w as int, r as int);
            lemma_small_product(p as int, w as int);
            lemma_small_product(q as int, u as int);
            lemma_weights_share_cross(p as int, q as int, r as int, s as int, u as int, w as int);
        }
        // The numerators of the weights share the factor `cross` with `total_area`
        // (which is `cross^2`); dividing it out keeps every product below within `i128`.
        let cross: i128 = p * s - q * r;
        let bc: i128 = u * s - w * r;
        let gc: i128 = p * w - q * u;
        assert(cross != 0) by {
            if cross == 0 {
                assert(cross * cross == 0) by (nonlinear_arith)
                    requires
                        cross == 0,
                ;
            }
        }
        let denom: i128;
        let beta: i128;
        let gamma: i128;
        if cross > 0 {
            denom = cross;
            beta = bc;
            gamma = gc;
        } else {
            denom = -cross;
            beta = -bc;
            gamma = -gc;
        }
        let alpha: i128 = denom - beta - gamma;
        let az = self.a.z as i128;
        let bz = self.b.z as i128;
        let cz = self.c.z as i128;
        proof {
            lemma_normalized_weights(cross as int, bc as int, gc as int, denom as int, beta as int, gamma as int);
            let t = k.total_area as int;
            assert(alpha * t == alpha_num(self.a, self.b, self.c, v.x as int, v.y as int) * denom
                && beta * t == beta_num(self.a, self.b, self.c, v.x as int, v.y as int) * denom
                && gamma * t == gamma_num(self.a, self.b, self.c, v.x as int, v.y as int) * denom)
                by (nonlinear_arith)
                requires
                    t == denom * denom,
                    alpha_num(self.a, self.b, self.c, v.x as int, v.y as int) == denom * alpha,
                    beta_num(self.a, self.b, self.c, v.x as int, v.y as int) == denom * beta,
                    gamma_num(self.a, self.b, self.c, v.x as int, v.y as int) == denom * gamma,
            ;
            lemma_weighted_depth_bound(alpha as int, az as int);
            lemma_weighted_depth_bound(beta as int, bz as int);
            lemma_weighted_depth_bound(gamma as int, cz as int);
        }
        let num: i128 = alpha * az + beta * bz + gamma * cz;
        proof {
            let a = self.a;
            let b = self.b;
            let c = self.c;
            let x = v.x as int;
            let y = v.y as int;
            let (na, nb, nc) = (alpha_num(a, b, c, x, y), beta_num(a, b, c, x, y), gamma_num(a, b, c, x, y));
            let (za, zb, zc) = (a.z as int, b.z as int, c.z as int);
            let (wa, wb, wc, d) = (alpha as int, beta as int, gamma as int, denom as int);
            assert(na * za == d * (wa * za)) by (nonlinear_arith)
                requires
                    na == d * wa,
            ;
            assert(nb * zb == d * (wb * zb)) by (nonlinear_arith)
                requires
                    nb == d * wb,
            ;
            assert(nc * zc == d * (wc * zc)) by (nonlinear_arith)
                requires
                    nc == d * wc,
            ;
            let (pa, pb, pc) = (wa * za, wb * zb, wc * zc);
            assert(d * pa + d * pb + d * pc == d * (pa + pb + pc)) by (nonlinear_arith);
            lemma_div_common_factor(num as int, denom as int, denom as int);
        }
        let z = floor_div(num, denom);
        BarycentricResult { z, alpha, beta, gamma, denom }
    }
}

/// Whether the weights put the pixel inside the triangle: each lies in `[0, 1]`, so the
/// edges and vertices count as inside.
pub fn inside_triangle(bary: &BarycentricResult) -> (r: bool)
    requires
        bary.wf(),
    ensures
        r == (in_unit_interval(bary.alpha as int, bary.denom as int) && in_unit_interval(
            bary.beta as int,
            bary.denom as int,
        ) && in_unit_interval(bary.gamma as int, bary.denom as int)),
{
    let alpha_in = 0 <= bary.alpha && bary.alpha <= bary.denom;
    let beta_in = 0 <= bary.beta && bary.beta <= bary.denom;
    let gamma_in = 0 <= bary.gamma && bary.gamma <= bary.denom;
    alpha_in && beta_in && gamma_in
}

/// Whether every weight lies below the wireframe threshold in magnitude.
fn near_edge_weights(bary: &BarycentricResult) -> (r: bool)
    requires
        bary.wf(),
    ensures
        r == (below_epsilon(bary.alpha as int, bary.denom as int) && below_epsilon(
            bary.beta as int,
            bary.denom as int,
        ) && below_epsilon(bary.gamma as int, bary.denom as int)),
{
    let limit = EPSILON_NUM * bary.denom;
    let alpha = if bary.alpha < 0 { -bary.alpha } else { bary.alpha };
    let beta = if bary.beta < 0 { -bary.beta } else { bary.beta };
    let gamma = if bary.gamma < 0 { -bary.gamma } else { bary.gamma };
    EPSILON_DEN * alpha < limit && EPSILON_DEN * beta < limit && EPSILON_DEN * gamma < limit
}

/// Cramer's rule for `av` in the basis `ab`, `ac`: `cross * av == bc * ab + gc * ac`.
proof fn lemma_cramer(p: int, q: int, r: int, s: int, u: int, w: int)
    ensures
        (p * s - q * r) * u == (u * s - w * r) * p + (p * w - q * u) * r,
        (p * s - q * r) * w == (u * s - w * r) * q + (p * w - q * u) * s,
{
    assert((p * s - q * r) * u == (u * s - w * r) * p + (p * w - q * u) * r) by (nonlinear_arith);
    assert((p * s - q * r) * w == (u * s - w * r) * q + (p * w - q * u) * s) by (nonlinear_arith);
}

/// `total * v == alpha * va + beta * vb + gamma * vc` with non-negative weights summing to
/// `total > 0` puts `v` between the least and the greatest of `va`, `vb`, `vc`.
proof fn lemma_weighted_between(alpha: int, beta: int, gamma: int, t: int, va: int, vb: int, vc: int, v: int)
    requires
        0 <= alpha,
        0 <= beta,
        0 <= gamma,
        alpha + beta + gamma == t,
        t > 0,
        t * v == alpha * va + beta * vb + gamma * vc,
    ensures
        min3(va, vb, vc) <= v <= max3(va, vb, vc),
{
    let lo = min3(va, vb, vc);
    let hi = max3(va, vb, vc);
    assert(t * lo <= t * v <= t * hi) by (nonlinear_arith)
        requires
            0 <= alpha,
            0 <= beta,
            0 <= gamma,
            alpha + beta + gamma == t,
            t * v == alpha * va + beta * vb + gamma * vc,
            lo <= va <= hi,
            lo <= vb <= hi,
            lo <= vc <= hi,
    ;
    assert(lo <= v <= hi) by (nonlinear_arith)
        requires
            t > 0,
            t * lo <= t * v <= t * hi,
    ;
}

/// From `t * (v - va) == nb * (vb - va) + ng * (vc - va)` to the combination
/// `t * v == na * va + nb * vb + ng * vc`, where `na == t - nb - ng`.
proof fn lemma_affine_combination(t: int, na: int, nb: int, ng: int, va: int, vb: int, vc: int, v: int)
    requires
        t * (v - va) == nb * (vb - va) + ng * (vc - va),
        na == t - nb - ng,
    ensures
        t * v == na * va + nb * vb + ng * vc,
{
    assert(t * (v - va) == t * v - t * va) by (nonlinear_arith);
    assert(nb * (vb - va) == nb * vb - nb * va) by (nonlinear_arith);
    assert(ng * (vc - va) == ng * vc - ng * va) by (nonlinear_arith);
    assert(na * va == t * va - nb * va - ng * va) by (nonlinear_arith)
        requires
            na == t - nb - ng,
    ;
}

/// Every pixel the triangle covers lies in its bounding box, so testing the box alone misses
/// none.
pub proof fn lemma_covered_in_box(a: Fragment, b: Fragment, c: Fragment, x: int, y: int)
    requires
        covers(a, b, c, x, y),
    ensures
        in_box(a, b, c, x, y),
{
    let (p, q) = (b.x - a.x, b.y - a.y);
    let (r, s) = (c.x - a.x, c.y - a.y);
    let (u, w) = (x - a.x, y - a.y);
    lemma_weights_share_cross(p, q, r, s, u, w);
    lemma_cramer(p, q, r, s, u, w);
    let cross = p * s - q * r;
    let bc = u * s - w * r;
    let gc = p * w - q * u;
    let t = total_area(a, b, c);
    let nb = beta_num(a, b, c, x, y);
    let ng = gamma_num(a, b, c, x, y);
    let na = alpha_num(a, b, c, x, y);
    assert(t * u == nb * p + ng * r && t * w == nb * q + ng * s) by (nonlinear_arith)
        requires
            t == cross * cross,
            nb == cross * bc,
            ng == cross * gc,
            cross * u == bc * p + gc * r,
            cross * w == bc * q + gc * s,
    ;
    lemma_affine_combination(t, na, nb, ng, a.x as int, b.x as int, c.x as int, x);
    lemma_affine_combination(t, na, nb, ng, a.y as int, b.y as int, c.y as int, y);
    lemma_weighted_between(na, nb, ng, t, a.x as int, b.x as int, c.x as int, x);
    lemma_weighted_between(na, nb, ng, t, a.y as int, b.y as int, c.y as int, y);
}

/// A convex combination of three depths, rounded down, lies between the least and the
/// greatest of them.
proof fn lemma_convex_depth(wa: int, wb: int, wc: int, d: int, za: int, zb: int, zc: int, lo: int, hi: int)
    requires
        0 <= wa,
        0 <= wb,
        0 <= wc,
        wa + wb + wc == d,
        d > 0,
        lo <= za <= hi,
        lo <= zb <= hi,
        lo <= zc <= hi,
    ensures
        lo <= (wa * za + wb * zb + wc * zc) / d <= hi,
{
    let n = wa * za + wb * zb + wc * zc;
    assert(d * lo <= n <= d * hi) by (nonlinear_arith)
        requires
            0 <= wa,
            0 <= wb,
            0 <= wc,
            wa + wb + wc == d,
            lo <= za <= hi,
            lo <= zb <= hi,
            lo <= zc <= hi,
            n == wa * za + wb * zb + wc * zc,
    ;
    lemma_div_is_ordered(d * lo, n, d);
    lemma_div_is_ordered(n, d * hi, d);
    lemma_div_multiples_vanish(lo, d);
    lemma_div_multiples_vanish(hi, d);
}

/// Nearest-wins update of one cell: the cell at column `frag.x`, row `frag.y` keeps the
/// smaller of its depth and `frag.z`; a fragment off the grid changes nothing.
fn color_depth(pixels: &mut Array2D<i64>, frag: Fragment)
    requires
        0 <= frag.x < MAX_EXTENT,
        0 <= frag.y < MAX_EXTENT,
    ensures
        grid_cells(*final(pixels)) == depth_test(grid_cells(*old(pixels)), frag.x as int, frag.y as int, frag.z as int),
{
    let ghost cells = grid_cells(*pixels);
    let row = frag.y as usize;
    let column = frag.x as usize;
    match grid_get(pixels, row, column) {
        Some(current) => {
            if frag.z < current {
                grid_set(pixels, row, column, frag.z);
            }
        },
        None => {},
    }
    assert(grid_cells(*pixels) =~~= depth_test(cells, frag.x as int, frag.y as int, frag.z as int));
}

/// Tests one pixel of the triangle and, where the mode allows, applies the depth test there.
fn write_pixel(pixels: &mut Array2D<i64>, mode: Mode, triangle: &Triangle, row_idx: i64, column_idx: i64)
    requires
        triangle.wf(),
        triangle.barycentric_constants.total_area != 0,
        0 <= row_idx < MAX_EXTENT,
        0 <= column_idx < MAX_EXTENT,
    ensures
        grid_cells(*final(pixels)) == (if covers(triangle.a, triangle.b, triangle.c, column_idx as int, row_idx as int)
            && (mode == Mode::Depth || near_edges(triangle.a, triangle.b, triangle.c, column_idx as int, row_idx as int)) {
            depth_test(
                grid_cells(*old(pixels)),
                column_idx as int,
                row_idx as int,
                depth_at(triangle.a, triangle.b, triangle.c, column_idx as int, row_idx as int),
            )
        } else {
            grid_cells(*old(pixels))
        }),
{
    let mut frag = Fragment { x: column_idx, y: row_idx, z: 0 };
    let bary = triangle.barycentric_coordinates(&frag);
    let ghost (a, b, c) = (triangle.a, triangle.b, triangle.c);
    let ghost t = total_area(a, b, c);
    proof {
        let x = column_idx as int;
        let y = row_idx as int;
        assert(t > 0) by {
            lemma_weights_share_cross(
                b.x - a.x,
                b.y - a.y,
                c.x - a.x,
                c.y - a.y,
                x - a.x,
                y - a.y,
            );
            let cross = (b.x - a.x) * (c.y - a.y) - (b.y - a.y) * (c.x - a.x);
            assert(cross * cross > 0) by (nonlinear_arith)
                requires
                    cross * cross != 0,
            ;
        }
        lemma_same_fraction(bary.alpha as int, bary.denom as int, alpha_num(a, b, c, x, y), t);
        lemma_same_fraction(bary.beta as int, bary.denom as int, beta_num(a, b, c, x, y), t);
        lemma_same_fraction(bary.gamma as int, bary.denom as int, gamma_num(a, b, c, x, y), t);
    }
    if inside_triangle(&bary) {
        proof {
            lemma_convex_depth(
                bary.alpha as int,
                bary.beta as int,
                bary.gamma as int,
                bary.denom as int,
                a.z as int,
                b.z as int,
                c.z as int,
                -0x8000_0000,
                0x8000_0000,
            );
        }
        frag.z = bary.z as i64;
        match mode {
            Mode::Depth => color_depth(pixels, frag),
            Mode::Wireframe => {
                if near_edge_weights(&bary) {
                    color_depth(pixels, frag);
                }
            },
        }
    }
}

/// The cells after the pixels of the triangle's box that come before row `row`, column
/// `column` (row by row) have been tested.
pub open spec fn painted_upto(
    cells: Seq<Seq<i64>>,
    a: Fragment,
    b: Fragment,
    c: Fragment,
    mode: Mode,
    row: int,
    column: int,
) -> Seq<Seq<i64>> {
    Seq::new(
        cells.len(),
        |r: int|
            Seq::new(
                cells[r].len(),
                |col: int|
                    if (r < row || (r == row && col < column)) && writes(a, b, c, mode, col, r) {
                        nearer(cells[r][col], depth_at(a, b, c, col, r))
                    } else {
                        cells[r][col]
                    },
            ),
    )
}

/// Rasterizes one triangle: tests every pixel of its bounding box, both ends included.
fn write_triangle(pixels: &mut Array2D<i64>, mode: Mode, triangle: &Triangle)
    requires
        triangle.wf(),
    ensures
        grid_cells(*final(pixels)) == paint(grid_cells(*old(pixels)), triangle.a, triangle.b, triangle.c, mode),
{
    let ghost cells = grid_cells(*pixels);
    let ghost (a, b, c) = (triangle.a, triangle.b, triangle.c);
    if triangle.barycentric_constants.total_area == 0 {
        // A degenerate triangle covers no pixel.
        assert(grid_cells(*pixels) =~~= paint(cells, a, b, c, mode));
        return;
    }
    let bb = triangle.bounding_box;
    let mut row_idx = bb.y_min;
    assert forall|x: int, y: int| #[trigger] covers(a, b, c, x, y) implies in_box(a, b, c, x, y) by {
        lemma_covered_in_box(a, b, c, x, y);
    }
    assert(grid_cells(*pixels) =~~= painted_upto(cells, a, b, c, mode, row_idx as int, bb.x_min as int));
    while row_idx <= bb.y_max
        invariant
            triangle.wf(),
            triangle.barycentric_constants.total_area != 0,
            bb == triangle.bounding_box,
            (a, b, c) == (triangle.a, triangle.b, triangle.c),
            bb.y_min <= row_idx <= bb.y_max + 1,
            grid_cells(*pixels) == painted_upto(cells, a, b, c, mode, row_idx as int, bb.x_min as int),
        decreases bb.y_max + 1 - row_idx,
    {
        let mut column_idx = bb.x_min;
        while column_idx <= bb.x_max
            invariant
                triangle.wf(),
                triangle.barycentric_constants.total_area != 0,
                bb == triangle.bounding_box,
                (a, b, c) == (triangle.a, triangle.b, triangle.c),
                bb.y_min <= row_idx <= bb.y_max,
                bb.x_min <= column_idx <= bb.x_max + 1,
                grid_cells(*pixels) == painted_upto(cells, a, b, c, mode, row_idx as int, column_idx as int),
            decreases bb.x_max + 1 - column_idx,
        {
            write_pixel(pixels, mode, triangle, row_idx, column_idx);
            assert(grid_cells(*pixels) =~~= painted_upto(
                cells,
                a,
                b,
                c,
                mode,
                row_idx as int,
                column_idx + 1,
            ));
            column_idx = column_idx + 1;
        }
        assert forall|x: int, y: int| #[trigger] covers(a, b, c, x, y) implies in_box(a, b, c, x, y) by {
            lemma_covered_in_box(a, b, c, x, y);
        }
        assert(grid_cells(*pixels) =~~= painted_upto(cells, a, b, c, mode, row_idx + 1, bb.x_min as int));
        row_idx = row_idx + 1;
    }
    assert forall|x: int, y: int| #[trigger] covers(a, b, c, x, y) implies in_box(a, b, c, x, y) by {
        lemma_covered_in_box(a, b, c, x, y);
    }
    assert(grid_cells(*pixels) =~~= paint(cells, a, b, c, mode));
}

/// Vertex `i` of a flat position array that holds three coordinates per vertex.
pub open spec fn vertex_at(positions: Seq<i32>, i: int) -> Point {
    Point { x: positions[3 * i], y: positions[3 * i + 1], z: positions[3 * i + 2] }
}

/// Triangle `k` of an indexed mesh, mapped to pixel space.
pub open spec fn mesh_triangle(space: Space, positions: Seq<i32>, indices: Seq<u32>, k: int) -> (
    Fragment,
    Fragment,
    Fragment,
) {
    (
        space.fragment_of(vertex_at(positions, indices[3 * k] as int)),
        space.fragment_of(vertex_at(positions, indices[3 * k + 1] as int)),
        space.fragment_of(vertex_at(positions, indices[3 * k + 2] as int)),
    )
}

/// The cells after rasterizing the first `n` triangles of an indexed mesh, in order.
pub open spec fn paint_mesh(
    cells: Seq<Seq<i64>>,
    space: Space,
    positions: Seq<i32>,
    indices: Seq<u32>,
    mode: Mode,
    n: nat,
) -> Seq<Seq<i64>>
    decreases n,
{
    if n == 0 {
        cells
    } else {
        let (a, b, c) = mesh_triangle(space, positions, indices, n - 1);
        paint(paint_mesh(cells, space, positions, indices, mode, (n - 1) as nat), a, b, c, mode)
    }
}

/// Vertex `index` of a flat position array.
fn vertex(positions: &[i32], index: u32) -> (p: Point)
    requires
        3 * index + 2 < positions.len(),
    ensures
        p == vertex_at(positions@, index as int),
{
    let i = index as usize * 3;
    Point { x: positions[i], y: positions[i + 1], z: positions[i + 2] }
}

/// Rasterizes every triangle of an indexed mesh into the depth buffer, in order.
/// `vertices` holds three window coordinates per vertex; each group of three `indices` names
/// the vertices of one triangle.
pub fn rasterize(
    pixels: &mut Array2D<i64>,
    space: &Space,
    vertices: &[i32],
    indices: &[u32],
    mode: Mode,
)
    requires
        space.wf(),
        indices.len() % 3 == 0,
        forall|i: int| 0 <= i < indices.len() ==> 3 * indices[i] + 2 < vertices.len(),
    ensures
        grid_cells(*final(pixels)) == paint_mesh(
            grid_cells(*old(pixels)),
            *space,
            vertices@,
            indices@,
            mode,
            (indices.len() / 3) as nat,
        ),
{
    let ghost cells = grid_cells(*pixels);
    let n = indices.len() / 3;
    let mut t: usize = 0;
    while t < n
        invariant
            space.wf(),
            n == indices.len() / 3,
            forall|i: int| 0 <= i < indices.len() ==> 3 * indices[i] + 2 < vertices.len(),
            t <= n,
            grid_cells(*pixels) == paint_mesh(cells, *space, vertices@, indices@, mode, t as nat),
        decreases n - t,
    {
        let a = vertex(vertices, indices[3 * t]);
        let b = vertex(vertices, indices[3 * t + 1]);
        let c = vertex(vertices, indices[3 * t + 2]);
        let triangle = Triangle::new(space, a, b, c);
        write_triangle(pixels, mode, &triangle);
        t = t + 1;
    }
}

/// Inside a triangle whose vertices lie on the grid, the interpolated depth lies between the
/// vertex depths, so it fits the depth buffer's cells.
pub proof fn lemma_covered_depth_in_range(a: Fragment, b: Fragment, c: Fragment, x: int, y: int)
    requires
        on_grid(a),
        on_grid(b),
        on_grid(c),
        covers(a, b, c, x, y),
    ensures
        -0x8000_0000 <= depth_at(a, b, c, x, y) <= 0x8000_0000,
{
    lemma_convex_depth(
        alpha_num(a, b, c, x, y),
        beta_num(a, b, c, x, y),
        gamma_num(a, b, c, x, y),
        total_area(a, b, c),
        a.z as int,
        b.z as int,
        c.z as int,
        -0x8000_0000,
        0x8000_0000,
    );
}

/// Nearest wins whatever the order: rasterizing one triangle and then another leaves the same
/// cells as rasterizing them the other way round.
pub proof fn lemma_paint_order_independent(
    cells: Seq<Seq<i64>>,
    a1: Fragment,
    b1: Fragment,
    c1: Fragment,
    a2: Fragment,
    b2: Fragment,
    c2: Fragment,
    mode: Mode,
)
    requires
        on_grid(a1),
        on_grid(b1),
        on_grid(c1),
        on_grid(a2),
        on_grid(b2),
        on_grid(c2),
    ensures
        paint(paint(cells, a1, b1, c1, mode), a2, b2, c2, mode) == paint(
            paint(cells, a2, b2, c2, mode),
            a1,
            b1,
            c1,
            mode,
        ),
{
    let first = paint(paint(cells, a1, b1, c1, mode), a2, b2, c2, mode);
    let second = paint(paint(cells, a2, b2, c2, mode), a1, b1, c1, mode);
    assert forall|r: int, col: int| 0 <= r < cells.len() && 0 <= col < cells[r].len() implies first[r][col]
        == second[r][col] by {
        if writes(a1, b1, c1, mode, col, r) {
            lemma_covered_depth_in_range(a1, b1, c1, col, r);
        }
        if writes(a2, b2, c2, mode, col, r) {
            lemma_covered_depth_in_range(a2, b2, c2, col, r);
        }
    }
    assert(first =~~= second);
}

/// A degenerate (collinear) triangle writes no pixel: rasterizing it leaves every cell as it
/// was.
pub proof fn lemma_degenerate_writes_nothing(cells: Seq<Seq<i64>>, a: Fragment, b: Fragment, c: Fragment, mode: Mode)
    requires
        total_area(a, b, c) == 0,
    ensures
        forall|x: int, y: int| !writes(a, b, c, mode, x, y),
        paint(cells, a, b, c, mode) == cells,
{
    assert(paint(cells, a, b, c, mode) =~~= cells);
}

/// The pixels that rasterizing the triangle in `mode` writes.
pub open spec fn written(a: Fragment, b: Fragment, c: Fragment, mode: Mode) -> Set<(int, int)> {
    Set::new(|p: (int, int)| writes(a, b, c, mode, p.0, p.1))
}

/// With the threshold 3/10, wireframe mode writes no pixel at all: inside a triangle the three
/// weights sum to 1, so they cannot all be below 3/10.
pub proof fn lemma_wireframe_writes_nothing(a: Fragment, b: Fragment, c: Fragment)
    ensures
        written(a, b, c, Mode::Wireframe) == Set::<(int, int)>::empty(),
{
    assert(written(a, b, c, Mode::Wireframe) =~= Set::<(int, int)>::empty());
}

/// Every pixel that wireframe mode writes, depth mode writes too; so wireframe mode never
/// writes more pixels than depth mode.
pub proof fn lemma_wireframe_within_depth(a: Fragment, b: Fragment, c: Fragment)
    ensures
        written(a, b, c, Mode::Wireframe).subset_of(written(a, b, c, Mode::Depth)),
        written(a, b, c, Mode::Wireframe).len() <= written(a, b, c, Mode::Depth).len(),
{
    lemma_wireframe_writes_nothing(a, b, c);
}

/// A fragment of a point under a well-formed `Space` lies on the grid.
pub proof fn lemma_fragment_on_grid(space: Space, p: Point)
    requires
        space.wf(),
    ensures
        on_grid(space.fragment_of(p)),
{
    lemma_window_to_pixel_monotonic_clamped(space, p, p);
}

/// Rasterizing a mesh of two triangles leaves the same cells whichever of the two comes first.
pub proof fn lemma_rasterize_order_independent(
    cells: Seq<Seq<i64>>,
    space: Space,
    positions: Seq<i32>,
    first: Seq<u32>,
    second: Seq<u32>,
    mode: Mode,
)
    requires
        space.wf(),
        first.len() == 3,
        second.len() == 3,
    ensures
        paint_mesh(cells, space, positions, first + second, mode, 2) == paint_mesh(
            cells,
            space,
            positions,
            second + first,
            mode,
            2,
        ),
{
    let forward = first + second;
    let backward = second + first;
    let (a1, b1, c1) = mesh_triangle(space, positions, forward, 0);
    let (a2, b2, c2) = mesh_triangle(space, positions, forward, 1);
    assert(mesh_triangle(space, positions, backward, 0) == (a2, b2, c2)) by {
        assert(backward[0] == forward[3] && backward[1] == forward[4] && backward[2] == forward[5]);
    }
    assert(mesh_triangle(space, positions, backward, 1) == (a1, b1, c1)) by {
        assert(backward[3] == forward[0] && backward[4] == forward[1] && backward[5] == forward[2]);
    }
    reveal_with_fuel(paint_mesh, 3);
    lemma_fragment_on_grid(space, vertex_at(positions, forward[0] as int));
    lemma_fragment_on_grid(space, vertex_at(positions, forward[1] as int));
    lemma_fragment_on_grid(space, vertex_at(positions, forward[2] as int));
    lemma_fragment_on_grid(space, vertex_at(positions, forward[3] as int));
    lemma_fragment_on_grid(space, vertex_at(positions, forward[4] as int));
    lemma_fragment_on_grid(space, vertex_at(positions, forward[5] as int));
    lemma_paint_order_independent(cells, a1, b1, c1, a2, b2, c2, mode);
}

} // verus!
