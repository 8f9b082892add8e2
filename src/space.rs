//! Window space, pixel space and the viewport transform between them.

use vstd::arithmetic::div_mod::{
    lemma_div_denominator, lemma_div_is_ordered, lemma_div_multiples_vanish, lemma_div_pos_is_pos,
};
use vstd::prelude::*;

verus! {

/// Window-space coordinates are fixed-point: the integer `k` stands for `k / WINDOW_UNIT`.
pub const WINDOW_UNIT: i64 = 65536;

/// The largest pixel extent accepted on either axis (the largest image side PNG allows).
/// Keeping pixel coordinates below it keeps every barycentric product within `i128`.
pub const MAX_EXTENT: u32 = 0x7fff_ffff;

/// `n / d` rounded to the nearest integer, halves away from zero (for `d > 0`).
pub open spec fn round_div(n: int, d: int) -> int {
    if n >= 0 {
        (2 * n + d) / (2 * d)
    } else {
        -((-2 * n + d) / (2 * d))
    }
}

pub open spec fn clamp(v: int, lo: int, hi: int) -> int {
    if v < lo {
        lo
    } else if v > hi {
        hi
    } else {
        v
    }
}

/// Rounds `n / d` (for `d > 0`) to the nearest integer, halves away from zero.
fn round_div_exec(n: i128, d: i128) -> (r: i128)
    requires
        d > 0,
        -0x1000_0000_0000_0000_0000_0000_0000 <= n <= 0x1000_0000_0000_0000_0000_0000_0000,
        d <= 0x1000_0000_0000_0000_0000_0000_0000,
    ensures
        r == round_div(n as int, d as int),
{
    let twice_d: i128 = 2 * d;
    if n >= 0 {
        let up: i128 = 2 * n + d;
        up / twice_d
    } else {
        let m: i128 = 0 - n;
        let up: i128 = 2 * m + d;
        let q: i128 = up / twice_d;
        assert(0 <= q <= up) by (nonlinear_arith)
            requires
                q == up / twice_d,
                up >= 0,
                twice_d > 0,
        ;
        0 - q
    }
}

/// `(k * a) / (k * b) == a / b` for a non-negative numerator.
proof fn lemma_div_common_factor(a: int, b: int, k: int)
    requires
        0 <= a,
        0 < b,
        0 < k,
    ensures
        (k * a) / (k * b) == a / b,
{
    assert(0 <= k * a) by (nonlinear_arith)
        requires
            0 <= a,
            0 < k,
    ;
    lemma_div_denominator(k * a, k, b);
    lemma_div_multiples_vanish(a, k);
}

/// A point in window space, each coordinate in units of `1 / WINDOW_UNIT`.
/// `z` grows towards the viewer.
#[derive(Clone, Copy, Debug, PartialEq, Eq)]
pub struct Point {
    pub x: i32,
    pub y: i32,
    pub z: i32,
}

/// A pixel with depth: integer column `x`, integer row `y`, and a depth `z` (in window units)
/// where smaller is nearer.
#[derive(Clone, Copy, Debug, PartialEq, Eq)]
pub struct Fragment {
    pub x: i64,
    pub y: i64,
    pub z: i64,
}

/// Bound on the components of a difference of two pixel positions.
pub open spec fn small(v: int) -> bool {
    -(MAX_EXTENT as int) <= v <= MAX_EXTENT as int
}

impl Fragment {
    /// The difference of the pixel positions `self - rhs`; depth takes no part in vector
    /// arithmetic, so the result has depth 0.
    pub fn sub(self, rhs: Fragment) -> (r: Fragment)
        requires
            small(self.x - rhs.x),
            small(self.y - rhs.y),
        ensures
            r.x == self.x - rhs.x,
            r.y == self.y - rhs.y,
            r.z == 0,
    {
        Fragment { x: self.x - rhs.x, y: self.y - rhs.y, z: 0 }
    }

    /// Dot product of the pixel positions.
    pub fn dot(&self, rhs: Fragment) -> (r: i64)
        requires
            small(self.x as int),
            small(self.y as int),
            small(rhs.x as int),
            small(rhs.y as int),
        ensures
            r == self.x * rhs.x + self.y * rhs.y,
    {
        proof {
            lemma_small_product(self.x as int, rhs.x as int);
            lemma_small_product(self.y as int, rhs.y as int);
        }
        (self.x * rhs.x) + (self.y * rhs.y)
    }

    /// Squared length of the pixel position.
    pub fn dot_self(&self) -> (r: i64)
        requires
            small(self.x as int),
            small(self.y as int),
        ensures
            r == self.x * self.x + self.y * self.y,
            r >= 0,
    {
        proof {
            lemma_small_product(self.x as int, self.x as int);
            lemma_small_product(self.y as int, self.y as int);
            assert(self.x * self.x >= 0 && self.y * self.y >= 0) by (nonlinear_arith);
        }
        (self.x * self.x) + (self.y * self.y)
    }
}

/// The product of two small values is below `2^62` in magnitude.
pub proof fn lemma_small_product(u: int, v: int)
    requires
        small(u),
        small(v),
    ensures
        -0x4000_0000_0000_0000 < u * v < 0x4000_0000_0000_0000,
{
    let m = MAX_EXTENT as int;
    assert(-m * m <= u * v <= m * m) by (nonlinear_arith)
        requires
            -m <= u <= m,
            -m <= v <= m,
            m >= 0,
    ;
}

/// The symmetric rectangle of window space shown by the image, with every bound scaled by
/// `unit`: the left edge is at `left / unit`, and so on.
#[derive(Clone, Copy, Debug, PartialEq, Eq)]
pub struct ViewVolume {
    pub left: i64,
    pub right: i64,
    pub top: i64,
    pub bottom: i64,
    pub unit: i64,
}

pub open spec fn min_extent(width: int, height: int) -> int {
    if width < height {
        width
    } else {
        height
    }
}

impl ViewVolume {
    /// The view volume of a `width` by `height` pixel grid: the narrower side spans
    /// `[-1, 1]`, the wider `[-r, r]` with `r` the ratio of the longer side to the shorter.
    pub fn new(width: u32, height: u32) -> (vv: ViewVolume)
        requires
            0 < width <= MAX_EXTENT,
            0 < height <= MAX_EXTENT,
        ensures
            vv.unit == min_extent(width as int, height as int),
            vv.right * height == vv.top * width,
            vv.right == -vv.left,
            vv.top == -vv.bottom,
            (vv.top - vv.bottom) * width == (vv.right - vv.left) * height,
            vv.right == vv.unit || vv.top == vv.unit,
            vv.right >= vv.unit,
            vv.top >= vv.unit,
            vv.right == width,
            vv.top == height,
    {
        let w = width as i64;
        let h = height as i64;
        let unit = if width < height {
            w
        } else {
            h
        };
        let vv = ViewVolume { left: -w, right: w, top: h, bottom: -h, unit };
        assert((vv.top - vv.bottom) * width == (vv.right - vv.left) * height) by (nonlinear_arith)
            requires
                vv.top == h,
                vv.bottom == -h,
                vv.right == w,
                vv.left == -w,
                h == height,
                w == width,
        ;
        assert(vv.right * height == vv.top * width) by (nonlinear_arith)
            requires
                vv.top == h,
                vv.right == w,
                h == height,
                w == width,
        ;
        vv
    }
}

/// Why a transform could not be built from a view-volume interval.
#[derive(Debug, PartialEq, Eq)]
pub enum PixelTransformError {
    /// The interval is not of the form `[-m, m]` with `m != 0`.
    BadViewVolume,
}

/// Affine map from one window axis to pixel indices: `pixel = round(scale * w + shift)`,
/// clamped to `[0, extent - 1]`, with `scale = scale_num / den` and `shift = shift_num / den`.
#[derive(Clone, Copy, Debug, PartialEq, Eq)]
pub struct Transform {
    pub shift_num: i64,
    pub scale_num: i64,
    pub den: i64,
    pub extent: u32,
}

impl Transform {
    pub open spec fn wf(self) -> bool {
        &&& 0 < self.den <= 2 * MAX_EXTENT
        &&& 0 < self.extent <= MAX_EXTENT
        &&& -0x4000_0000_0000_0000 <= self.scale_num <= 0x4000_0000_0000_0000
        &&& -0x4000_0000_0000_0000 <= self.shift_num <= 0x4000_0000_0000_0000
    }

    /// The pixel index of the window coordinate `w` (in units of `1 / WINDOW_UNIT`).
    pub open spec fn pixel_of(self, w: int) -> int {
        clamp(
            round_div(
                self.scale_num * w + self.shift_num * WINDOW_UNIT,
                self.den * WINDOW_UNIT,
            ),
            0,
            self.extent - 1,
        )
    }

    /// The transform that maps the window interval `[vv_min / unit, vv_max / unit]` onto
    /// `pixel_extent` pixels: `scale = pixel_extent / (max - min)` and
    /// `shift = max * pixel_extent / (max - min)`. Fails unless `vv_min == -vv_max != 0`.
    pub fn new(pixel_extent: u32, vv_min: i64, vv_max: i64, unit: i64) -> (r: Result<
        Transform,
        PixelTransformError,
    >)
        requires
            0 < pixel_extent <= MAX_EXTENT,
            0 < unit <= MAX_EXTENT,
            small(vv_min as int),
            small(vv_max as int),
        ensures
            match r {
                Ok(t) => {
                    &&& -vv_min == vv_max
                    &&& vv_max != 0
                    &&& t.wf()
                    &&& t.extent == pixel_extent
                    &&& t.scale_num * (vv_max - vv_min) == pixel_extent * unit * t.den
                    &&& t.shift_num * (vv_max - vv_min) == vv_max * pixel_extent * t.den
                },
                Err(e) => (-vv_min != vv_max || vv_max == 0) && e == PixelTransformError::BadViewVolume,
            },
    {
        if -vv_min != vv_max || vv_max == 0 {
            return Err(PixelTransformError::BadViewVolume);
        }
        let e = pixel_extent as i64;
        let m = MAX_EXTENT as i64;
        assert(0 < e * unit <= m * m) by (nonlinear_arith)
            requires
                0 < e <= m,
                0 < unit <= m,
        ;
        assert(-m * m <= vv_max * e <= m * m) by (nonlinear_arith)
            requires
                0 < e <= m,
                -m <= vv_max <= m,
        ;
        let scale_num = e * unit;
        let shift_num = vv_max * e;
        let t = if vv_max > 0 {
            Transform { shift_num, scale_num, den: 2 * vv_max, extent: pixel_extent }
        } else {
            Transform { shift_num: -shift_num, scale_num: -scale_num, den: -2 * vv_max, extent: pixel_extent }
        };
        assert(t.scale_num * (vv_max - vv_min) == pixel_extent * unit * t.den) by (nonlinear_arith)
            requires
                vv_max - vv_min == 2 * vv_max,
                t.den == 2 * vv_max || t.den == -2 * vv_max,
                t.den == 2 * vv_max ==> t.scale_num == e * unit,
                t.den == -2 * vv_max ==> t.scale_num == -(e * unit),
                e == pixel_extent,
        ;
        assert(t.shift_num * (vv_max - vv_min) == vv_max * pixel_extent * t.den) by (nonlinear_arith)
            requires
                vv_max - vv_min == 2 * vv_max,
                t.den == 2 * vv_max || t.den == -2 * vv_max,
                t.den == 2 * vv_max ==> t.shift_num == vv_max * e,
                t.den == -2 * vv_max ==> t.shift_num == -(vv_max * e),
                e == pixel_extent,
        ;
        Ok(t)
    }

    /// Maps a window coordinate to its pixel index, clamping off-screen coordinates onto the
    /// border pixels.
    pub fn window_to_pixel(&self, window_coord: i32) -> (r: i64)
        requires
            self.wf(),
        ensures
            r == self.pixel_of(window_coord as int),
            0 <= r < self.extent,
    {
        let w = window_coord as i128;
        let scale = self.scale_num as i128;
        let shift = self.shift_num as i128;
        let den = self.den as i128;
        assert(-0x4000_0000_0000_0000_0000_0000 <= scale * w <= 0x4000_0000_0000_0000_0000_0000)
            by (nonlinear_arith)
            requires
                -0x4000_0000_0000_0000 <= scale <= 0x4000_0000_0000_0000,
                -0x8000_0000 <= w <= 0x8000_0000,
        ;
        assert(-0x4000_0000_0000_0000_0000_0000 <= shift * 65536 <= 0x4000_0000_0000_0000_0000_0000)
            by (nonlinear_arith)
            requires
                -0x4000_0000_0000_0000 <= shift <= 0x4000_0000_0000_0000,
        ;
        let n: i128 = scale * w + shift * (WINDOW_UNIT as i128);
        let d: i128 = den * (WINDOW_UNIT as i128);
        let rounded = round_div_exec(n, d);
        let hi = self.extent as i128 - 1;
        if rounded < 0 {
            0
        } else if rounded > hi {
            hi as i64
        } else {
            rounded as i64
        }
    }
}

/// Why a `Space` could not be built.
#[derive(Debug, PartialEq, Eq)]
pub enum SpaceError {
    /// A pixel extent was zero or above `MAX_EXTENT`.
    Init,
}

/// Pixel extents that a `Space` accepts.
pub open spec fn valid_extents(width: int, height: int) -> bool {
    0 < width <= MAX_EXTENT && 0 < height <= MAX_EXTENT
}

/// The pixel index on an axis of `extent` pixels, in a grid whose shorter side has `shorter`
/// pixels, of the window coordinate `w`: `round(shorter / 2 * w + extent / 2)`, clamped to
/// `[0, extent - 1]`.
pub open spec fn axis_pixel(extent: int, shorter: int, w: int) -> int {
    clamp(round_div(shorter * w + extent * WINDOW_UNIT, 2 * WINDOW_UNIT), 0, extent - 1)
}

/// The viewport transform of one image: one axis transform per pixel-grid axis.
#[derive(Clone, Copy, Debug, PartialEq, Eq)]
pub struct Space {
    pub x_transform: Transform,
    pub y_transform: Transform,
}

impl Space {
    pub open spec fn width(self) -> int {
        self.x_transform.extent as int
    }

    pub open spec fn height(self) -> int {
        self.y_transform.extent as int
    }

    /// Both transforms come from the view volume of a `width` by `height` grid:
    /// scale `min(width, height) / 2`, shift half the axis extent.
    pub open spec fn wf(self) -> bool {
        let m = min_extent(self.width(), self.height());
        &&& self.x_transform.wf()
        &&& self.y_transform.wf()
        &&& 2 * self.x_transform.scale_num == m * self.x_transform.den
        &&& 2 * self.x_transform.shift_num == self.width() * self.x_transform.den
        &&& 2 * self.y_transform.scale_num == m * self.y_transform.den
        &&& 2 * self.y_transform.shift_num == self.height() * self.y_transform.den
    }

    /// The fragment that a window-space point maps to; depth is negated so that smaller
    /// means nearer.
    pub open spec fn fragment_of(self, p: Point) -> Fragment {
        let m = min_extent(self.width(), self.height());
        Fragment {
            x: axis_pixel(self.width(), m, p.x as int) as i64,
            y: axis_pixel(self.height(), m, p.y as int) as i64,
            z: (-(p.z as int)) as i64,
        }
    }

    /// The viewport transform of a `width` by `height` pixel grid. Fails with `Init` unless
    /// both extents lie in `1..=MAX_EXTENT`.
    pub fn new(width: u32, height: u32) -> (r: Result<Space, SpaceError>)
        ensures
            match r {
                Ok(s) => {
                    &&& valid_extents(width as int, height as int)
                    &&& s.wf()
                    &&& s.width() == width
                    &&& s.height() == height
                },
                Err(e) => !valid_extents(width as int, height as int) && e == SpaceError::Init,
            },
    {
        if width == 0 || height == 0 || width > MAX_EXTENT || height > MAX_EXTENT {
            return Err(SpaceError::Init);
        }
        let vv = ViewVolume::new(width, height);
        let x_transform = match Transform::new(width, vv.left, vv.right, vv.unit) {
            Ok(t) => t,
            Err(_) => return Err(SpaceError::Init),
        };
        let y_transform = match Transform::new(height, vv.bottom, vv.top, vv.unit) {
            Ok(t) => t,
            Err(_) => return Err(SpaceError::Init),
        };
        proof {
            let m = vv.unit as int;
            let (xs, xh, xd) = (x_transform.scale_num as int, x_transform.shift_num as int, x_transform.den as int);
            let (ys, yh, yd) = (y_transform.scale_num as int, y_transform.shift_num as int, y_transform.den as int);
            let (w, h) = (width as int, height as int);
            assert((2 * xs) * w == (m * xd) * w && (2 * xh) * w == (w * xd) * w) by (nonlinear_arith)
                requires
                    xs * (w - (-w)) == w * m * xd,
                    xh * (w - (-w)) == w * w * xd,
            ;
            assert((2 * ys) * h == (m * yd) * h && (2 * yh) * h == (h * yd) * h) by (nonlinear_arith)
                requires
                    ys * (h - (-h)) == h * m * yd,
                    yh * (h - (-h)) == h * h * yd,
            ;
            lemma_cancel(2 * x_transform.scale_num, m * x_transform.den, width as int);
            lemma_cancel(2 * x_transform.shift_num, width * x_transform.den, width as int);
            lemma_cancel(2 * y_transform.scale_num, m * y_transform.den, height as int);
            lemma_cancel(2 * y_transform.shift_num, height * y_transform.den, height as int);
        }
        Ok(Space { x_transform, y_transform })
    }

    /// Maps a window-space point to its fragment.
    pub fn window_to_pixel(&self, point_window: Point) -> (r: Fragment)
        requires
            self.wf(),
        ensures
            r == self.fragment_of(point_window),
            0 <= r.x < self.width(),
            0 <= r.y < self.height(),
    {
        let ghost m = min_extent(self.width(), self.height());
        proof {
            lemma_pixel_of_axis(self.x_transform, m, point_window.x as int);
            lemma_pixel_of_axis(self.y_transform, m, point_window.y as int);
        }
        Fragment {
            x: self.x_transform.window_to_pixel(point_window.x),
            y: self.y_transform.window_to_pixel(point_window.y),
            z: -(point_window.z as i64),
        }
    }
}

/// The viewport transform of a `width` by `height` image whose extents are already known to
/// be valid.
pub fn create_space_transforms(width: u32, height: u32) -> (s: Space)
    requires
        valid_extents(width as int, height as int),
    ensures
        s.wf(),
        s.width() == width,
        s.height() == height,
{
    match Space::new(width, height) {
        Ok(space) => space,
        Err(_) => vstd::pervasive::unreached(),
    }
}

/// `a * k == b * k` with `k > 0` gives `a == b`.
proof fn lemma_cancel(a: int, b: int, k: int)
    requires
        k > 0,
        a * k == b * k,
    ensures
        a == b,
{
    assert(a == b) by (nonlinear_arith)
        requires
            k > 0,
            a * k == b * k,
    ;
}

/// The transform's pixel index agrees with the closed form of `axis_pixel`.
proof fn lemma_pixel_of_axis(t: Transform, m: int, w: int)
    requires
        t.wf(),
        2 * t.scale_num == m * t.den,
        2 * t.shift_num == t.extent * t.den,
    ensures
        t.pixel_of(w) == axis_pixel(t.extent as int, m, w),
{
    let u = WINDOW_UNIT as int;
    let den = t.den as int;
    let n = t.scale_num * w + t.shift_num * u;
    let n2 = m * w + t.extent * u;
    assert(2 * n == den * n2) by (nonlinear_arith)
        requires
            n == t.scale_num * w + t.shift_num * u,
            n2 == m * w + t.extent * u,
            2 * t.scale_num == m * den,
            2 * t.shift_num == t.extent * den,
    ;
    assert(n >= 0 <==> n2 >= 0) by (nonlinear_arith)
        requires
            2 * n == den * n2,
            den > 0,
    ;
    if n >= 0 {
        assert(2 * n + den * u == den * (n2 + u)) by (nonlinear_arith)
            requires
                2 * n == den * n2,
        ;
        assert(2 * (den * u) == den * (2 * u)) by (nonlinear_arith);
        lemma_div_common_factor(n2 + u, 2 * u, den);
        assert(2 * n2 + 2 * u == 2 * (n2 + u));
        lemma_div_common_factor(n2 + u, 2 * u, 2);
    } else {
        assert(-2 * n + den * u == den * (-n2 + u)) by (nonlinear_arith)
            requires
                2 * n == den * n2,
        ;
        assert(2 * (den * u) == den * (2 * u)) by (nonlinear_arith);
        lemma_div_common_factor(-n2 + u, 2 * u, den);
        assert(-2 * n2 + 2 * u == 2 * (-n2 + u));
        lemma_div_common_factor(-n2 + u, 2 * u, 2);
    }
}

/// `round_div` never decreases as the numerator grows.
proof fn lemma_round_div_monotonic(n1: int, n2: int, d: int)
    requires
        n1 <= n2,
        d > 0,
    ensures
        round_div(n1, d) <= round_div(n2, d),
{
    if n1 >= 0 {
        lemma_div_is_ordered(2 * n1 + d, 2 * n2 + d, 2 * d);
    } else if n2 >= 0 {
        lemma_div_pos_is_pos(-2 * n1 + d, 2 * d);
        lemma_div_pos_is_pos(2 * n2 + d, 2 * d);
    } else {
        lemma_div_is_ordered(-2 * n2 + d, -2 * n1 + d, 2 * d);
    }
}

/// Along each axis, `window_to_pixel` never decreases as the window coordinate grows, and it
/// always yields a pixel of the grid, however far outside the view volume the point lies.
pub proof fn lemma_window_to_pixel_monotonic_clamped(space: Space, p: Point, q: Point)
    requires
        space.wf(),
    ensures
        p.x <= q.x ==> space.fragment_of(p).x <= space.fragment_of(q).x,
        p.y <= q.y ==> space.fragment_of(p).y <= space.fragment_of(q).y,
        0 <= space.fragment_of(p).x < space.width(),
        0 <= space.fragment_of(p).y < space.height(),
{
    let m = min_extent(space.width(), space.height());
    let u = WINDOW_UNIT as int;
    if p.x <= q.x {
        assert(m * p.x <= m * q.x) by (nonlinear_arith)
            requires
                m > 0,
                p.x <= q.x,
        ;
        lemma_round_div_monotonic(m * p.x + space.width() * u, m * q.x + space.width() * u, 2 * u);
    }
    if p.y <= q.y {
        assert(m * p.y <= m * q.y) by (nonlinear_arith)
            requires
                m > 0,
                p.y <= q.y,
        ;
        lemma_round_div_monotonic(m * p.y + space.height() * u, m * q.y + space.height() * u, 2 * u);
    }
}

} // verus!
