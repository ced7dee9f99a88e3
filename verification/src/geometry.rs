//! Geometry for the simulation: two-dimensional fixed-point vectors
//! with verified normalization, and the pure projection between
//! play-field pixel coordinates and normalized device coordinates.

use vstd::prelude::*;
use vstd::arithmetic::div_mod::{
    lemma_div_pos_is_pos, lemma_fundamental_div_mod, lemma_fundamental_div_mod_converse,
    lemma_mod_bound,
};
use crate::fixed::{SCALE, div_trunc, div_toward_zero, sqrt_floor, isqrt, lemma_sqrt_floor_bounds};

verus! {

/// Positions further than this from the origin are clamped; far outside
/// any play field, yet comfortably inside the `i64` range.
pub const POS_LIMIT: i64 = 0x2000_0000_0000;

/// The projection accepts any coordinate up to this bound, which leaves
/// room for the corners of rectangles anchored at a clamped position.
pub const COORD_LIMIT: i64 = 0x4000_0000_0000;

/// Lower bound of the squared norm of a freshly normalized heading.
pub const UNIT_NORM_SQ_MIN: i64 = SCALE * SCALE - 3 * SCALE - 3;

/// Upper bound of the squared norm of a freshly normalized heading.
pub const UNIT_NORM_SQ_MAX: i64 = SCALE * SCALE + 2 * SCALE;

/// A two-dimensional vector in fixed-point units; both a position
/// (units of `1/SCALE` pixel) and a heading (unit length is `SCALE`).
#[derive(Clone, Copy, PartialEq, Eq, Structural, Debug)]
pub struct Vector2D {
    pub x: i64,
    pub y: i64,
}

/// Mathematical model of a vector: unbounded integer coordinates.
pub ghost struct Vec2Model {
    pub x: int,
    pub y: int,
}

impl View for Vector2D {
    type V = Vec2Model;

    open spec fn view(&self) -> Vec2Model {
        Vec2Model { x: self.x as int, y: self.y as int }
    }
}

/// Squared Euclidean norm.
pub open spec fn norm_sq(v: Vec2Model) -> int {
    v.x * v.x + v.y * v.y
}

/// The divisor normalization uses: the rounded-down norm of `v` scaled
/// up by `SCALE`.
pub open spec fn normalizer(v: Vec2Model) -> int {
    sqrt_floor(((v.x * SCALE) * (v.x * SCALE) + (v.y * SCALE) * (v.y * SCALE)) as nat) as int
}

/// `v` scaled to unit length (length `SCALE`), rounding each component
/// toward zero.
pub open spec fn normalized(v: Vec2Model) -> Vec2Model {
    Vec2Model {
        x: div_trunc(v.x * SCALE * SCALE, normalizer(v)),
        y: div_trunc(v.y * SCALE * SCALE, normalizer(v)),
    }
}

/// A heading is near unit length: its squared norm lies in a narrow
/// band around `SCALE * SCALE`.
pub open spec fn near_unit(v: Vec2Model) -> bool {
    UNIT_NORM_SQ_MIN <= norm_sq(v) <= UNIT_NORM_SQ_MAX
}

/// A near-unit heading has components no larger than `SCALE`.
pub proof fn lemma_near_unit_bounds(v: Vec2Model)
    requires
        near_unit(v),
    ensures
        -SCALE <= v.x <= SCALE,
        -SCALE <= v.y <= SCALE,
{
    let s = SCALE as int;
    assert(v.x * v.x >= 0 && v.y * v.y >= 0) by (nonlinear_arith);
    assert(v.x * v.x <= s * s + 2 * s);
    assert(-s <= v.x <= s) by (nonlinear_arith)
        requires
            v.x * v.x < (s + 1) * (s + 1),
            s >= 1,
    ;
    assert(v.y * v.y <= s * s + 2 * s);
    assert(-s <= v.y <= s) by (nonlinear_arith)
        requires
            v.y * v.y < (s + 1) * (s + 1),
            s >= 1,
    ;
}

/// Law: normalization of any representable non-zero vector yields a
/// near-unit heading, and the divisor it uses is at least `SCALE`.
pub proof fn lemma_normalized_near_unit(x: int, y: int)
    requires
        1 <= x * x + y * y,
        -0x10_0000 <= x <= 0x10_0000,
        -0x10_0000 <= y <= 0x10_0000,
    ensures
        near_unit(normalized(Vec2Model { x, y })),
        normalizer(Vec2Model { x, y }) >= SCALE,
{
    let s = SCALE as int;
    let v = Vec2Model { x, y };
    let a = x * s;
    let b = y * s;
    assert(a * a + b * b == s * s * (x * x + y * y)) by (nonlinear_arith)
        requires
            a == x * s,
            b == y * s,
    ;
    let m = a * a + b * b;
    assert(m >= s * s * 1) by (nonlinear_arith)
        requires
            m == s * s * (x * x + y * y),
            x * x + y * y >= 1,
    ;
    lemma_sqrt_floor_bounds(m as nat);
    let n = sqrt_floor(m as nat) as int;
    assert(n * n <= m);
    assert(m < (n + 1) * (n + 1));
    assert(n >= s) by (nonlinear_arith)
        requires
            (n + 1) * (n + 1) > m,
            m >= s * s,
            n >= 0,
            s >= 1,
    ;
    assert(m <= n * n + 2 * n) by (nonlinear_arith)
        requires
            m < (n + 1) * (n + 1),
    ;

    let p = if a >= 0 { a } else { -a };
    let q = if b >= 0 { b } else { -b };
    let qx = (p * s) / n;
    let qy = (q * s) / n;

    assert(p * s >= 0 && q * s >= 0) by (nonlinear_arith)
        requires
            p >= 0,
            q >= 0,
            s >= 1,
    ;
    lemma_div_pos_is_pos(p * s, n);
    lemma_div_pos_is_pos(q * s, n);
    lemma_fundamental_div_mod(p * s, n);
    lemma_mod_bound(p * s, n);
    lemma_fundamental_div_mod(q * s, n);
    lemma_mod_bound(q * s, n);
    assert(n * qx <= p * s < n * qx + n);
    assert(n * qy <= q * s < n * qy + n);

    // The executed division truncates toward zero, so the components of
    // the normalized vector are qx, qy up to sign.
    let nx = normalized(v).x;
    let ny = normalized(v).y;
    assert(x * s * s == a * s);
    assert(y * s * s == b * s);
    if a >= 0 {
        assert(nx == qx);
    } else {
        assert(a * s < 0) by (nonlinear_arith)
            requires
                a < 0,
                s >= 1,
        ;
        assert(-(a * s) == p * s) by (nonlinear_arith)
            requires
                p == -a,
        ;
        assert(nx == -qx);
    }
    if b >= 0 {
        assert(ny == qy);
    } else {
        assert(b * s < 0) by (nonlinear_arith)
            requires
                b < 0,
                s >= 1,
        ;
        assert(-(b * s) == q * s) by (nonlinear_arith)
            requires
                q == -b,
        ;
        assert(ny == -qy);
    }
    assert(nx * nx == qx * qx) by (nonlinear_arith)
        requires
            nx == qx || nx == -qx,
    ;
    assert(ny * ny == qy * qy) by (nonlinear_arith)
        requires
            ny == qy || ny == -qy,
    ;
    let u = qx * qx + qy * qy;

    // Upper bound: u <= s*s + 2*s.
    assert(qx * qx * (n * n) <= (p * p) * (s * s)) by (nonlinear_arith)
        requires
            0 <= qx * n,
            qx * n <= p * s,
            n * qx == qx * n,
    ;
    assert(qy * qy * (n * n) <= (q * q) * (s * s)) by (nonlinear_arith)
        requires
            0 <= qy * n,
            qy * n <= q * s,
            n * qy == qy * n,
    ;
    assert(p * p == a * a && q * q == b * b) by (nonlinear_arith)
        requires
            p == a || p == -a,
            q == b || q == -b,
    ;
    assert(u * (n * n) <= m * (s * s)) by (nonlinear_arith)
        requires
            u == qx * qx + qy * qy,
            m == a * a + b * b,
            qx * qx * (n * n) <= (a * a) * (s * s),
            qy * qy * (n * n) <= (b * b) * (s * s),
    ;
    assert(m * (s * s) <= (n * n + 2 * n) * (s * s)) by (nonlinear_arith)
        requires
            m <= n * n + 2 * n,
            s >= 1,
    ;
    assert(u <= s * s + 2 * s) by (nonlinear_arith)
        requires
            u * (n * n) <= (n * n + 2 * n) * (s * s),
            n >= s,
            s >= 1,
    ;

    // Lower bound: u >= s*s - 3*s - 3.
    assert(qx * n + n > p * s);
    assert(qx * qx * (n * n) + n * n >= (p * s - n) * (p * s - n)) by (nonlinear_arith)
        requires
            qx * n + n > p * s,
            qx >= 0,
            n >= 1,
            p * s >= 0,
            n * qx == qx * n,
    ;
    assert(qy * qy * (n * n) + n * n >= (q * s - n) * (q * s - n)) by (nonlinear_arith)
        requires
            qy * n + n > q * s,
            qy >= 0,
            n >= 1,
            q * s >= 0,
            n * qy == qy * n,
    ;
    // p + q is at most about sqrt(2) times the norm.
    assert((p + q) * (p + q) <= 2 * (p * p + q * q)) by (nonlinear_arith);
    assert(2 * (p + q) <= 3 * n + 2) by (nonlinear_arith)
        requires
            (p + q) * (p + q) <= 2 * (p * p + q * q),
            p * p + q * q == m,
            m <= n * n + 2 * n,
            p >= 0,
            q >= 0,
            n >= 1,
    ;
    assert((p * s - n) * (p * s - n) == (p * p) * (s * s) - 2 * (p * (s * n)) + n * n)
        by (nonlinear_arith);
    assert((q * s - n) * (q * s - n) == (q * q) * (s * s) - 2 * (q * (s * n)) + n * n)
        by (nonlinear_arith);
    assert(u * (n * n) == qx * qx * (n * n) + qy * qy * (n * n)) by (nonlinear_arith)
        requires
            u == qx * qx + qy * qy,
    ;
    assert((p * p) * (s * s) + (q * q) * (s * s) == m * (s * s)) by (nonlinear_arith)
        requires
            m == p * p + q * q,
    ;
    assert(2 * (p * (s * n)) + 2 * (q * (s * n)) == (2 * (p + q)) * (s * n))
        by (nonlinear_arith);
    assert(u * (n * n) >= m * (s * s) - (2 * (p + q)) * (s * n));
    assert((2 * (p + q)) * (s * n) <= (3 * n + 2) * (s * n)) by (nonlinear_arith)
        requires
            2 * (p + q) <= 3 * n + 2,
            s >= 1,
            n >= 1,
    ;
    assert(m * (s * s) >= (n * n) * (s * s)) by (nonlinear_arith)
        requires
            m >= n * n,
            s >= 1,
    ;
    assert(u * (n * n) >= (n * n) * (s * s) - (3 * n + 2) * (s * n));
    if u <= s * s - 3 * s - 4 {
        assert(u * (n * n) <= (s * s - 3 * s - 4) * (n * n)) by (nonlinear_arith)
            requires
                u <= s * s - 3 * s - 4,
        ;
        assert((s * s - 3 * s - 4) * (n * n) < (n * n) * (s * s) - (3 * n + 2) * (s * n))
            by (nonlinear_arith)
            requires
                n >= s,
                s >= 4,
        ;
        assert(false);
    }
}

impl Vector2D {
    /// The vector with the given coordinates.
    pub fn new(x: i64, y: i64) -> (r: Self)
        ensures
            r@ == (Vec2Model { x: x as int, y: y as int }),
    {
        Self { x, y }
    }

    /// `self` scaled to unit length (`SCALE` in fixed-point units),
    /// rounding each component toward zero.
    pub fn normalize(&self) -> (r: Self)
        requires
            norm_sq(self@) >= 1,
            -0x10_0000 <= self.x <= 0x10_0000,
            -0x10_0000 <= self.y <= 0x10_0000,
        ensures
            r@ == normalized(self@),
            near_unit(r@),
            -SCALE <= r.x <= SCALE,
            -SCALE <= r.y <= SCALE,
    {
        proof {
            lemma_normalized_near_unit(self.x as int, self.y as int);
        }
        let a: i64 = self.x * SCALE;
        let b: i64 = self.y * SCALE;
        proof {
            assert(a * a <= 0x1000_0000_0000_0000 && a * a >= 0) by (nonlinear_arith)
                requires
                    -0x4000_0000 <= a <= 0x4000_0000,
            ;
            assert(b * b <= 0x1000_0000_0000_0000 && b * b >= 0) by (nonlinear_arith)
                requires
                    -0x4000_0000 <= b <= 0x4000_0000,
            ;
        }
        let m: i64 = a * a + b * b;
        let n: u64 = isqrt(m as u64);
        proof {
            assert(n <= 0x2000_0000_0000) by (nonlinear_arith)
                requires
                    (n as int) * (n as int) <= m as int,
                    m <= 0x2000_0000_0000_0000,
                    n >= 0,
            ;
        }
        let d: i64 = n as i64;
        let rx: i64 = div_toward_zero(a * SCALE, d);
        let ry: i64 = div_toward_zero(b * SCALE, d);
        let r = Self { x: rx, y: ry };
        proof {
            lemma_near_unit_bounds(r@);
        }
        r
    }
}

/// The play field, in whole pixels.
#[derive(Clone, Copy, PartialEq, Eq, Structural, Debug)]
pub struct FieldSize {
    pub width: u32,
    pub height: u32,
}

impl FieldSize {
    /// Both dimensions are positive and small enough for fixed-point
    /// arithmetic.
    pub open spec fn wf(self) -> bool {
        1 <= self.width <= 0x8000 && 1 <= self.height <= 0x8000
    }

    /// Field width in fixed-point units.
    pub open spec fn width_fp(self) -> int {
        self.width * SCALE
    }

    /// Field height in fixed-point units.
    pub open spec fn height_fp(self) -> int {
        self.height * SCALE
    }
}

/// A point of renderable geometry; `x` and `y` are fixed-point, and
/// `z` is the constant depth the renderer expects.
#[derive(Clone, Copy, PartialEq, Eq, Structural, Debug)]
pub struct Point3 {
    pub x: i64,
    pub y: i64,
    pub z: i64,
}

/// One fixed-point screen coordinate mapped to normalized device
/// coordinates: `2 * p / extent - 1`, in fixed-point units.
pub open spec fn clip_of(p: int, extent_px: int) -> int {
    div_trunc(2 * p, extent_px) - SCALE
}

/// One fixed-point clip coordinate mapped back to screen coordinates:
/// `(c + 1) / 2 * extent`, in fixed-point units.
pub open spec fn screen_of(c: int, extent_px: int) -> int {
    div_trunc((c + SCALE) * extent_px, 2)
}

/// Map a screen-space point (fixed-point pixels) to normalized device
/// coordinates in `[-SCALE, SCALE]` per axis; the depth is fixed.
pub fn screen_space_to_clip_space(pos: &Point3, size: &FieldSize) -> (r: Point3)
    requires
        size.wf(),
        -COORD_LIMIT <= pos.x <= COORD_LIMIT,
        -COORD_LIMIT <= pos.y <= COORD_LIMIT,
    ensures
        r.x == clip_of(pos.x as int, size.width as int),
        r.y == clip_of(pos.y as int, size.height as int),
        r.z == SCALE,
{
    let cx: i64 = div_toward_zero(2 * pos.x, size.width as i64) - SCALE;
    let cy: i64 = div_toward_zero(2 * pos.y, size.height as i64) - SCALE;
    Point3 { x: cx, y: cy, z: SCALE }
}

/// Map a clip-space point back to screen space (fixed-point pixels);
/// the algebraic inverse of `screen_space_to_clip_space`.
pub fn clip_space_to_screen_space(pos: &Point3, size: &FieldSize) -> (r: Point3)
    requires
        size.wf(),
        -COORD_LIMIT <= pos.x <= COORD_LIMIT,
        -COORD_LIMIT <= pos.y <= COORD_LIMIT,
    ensures
        r.x == screen_of(pos.x as int, size.width as int),
        r.y == screen_of(pos.y as int, size.height as int),
        r.z == SCALE,
{
    proof {
        assert((pos.x + SCALE) * (size.width as int) <= 0x4000_0000_0000_0000) by (nonlinear_arith)
            requires
                -COORD_LIMIT <= pos.x <= COORD_LIMIT,
                1 <= size.width <= 0x8000,
        ;
        assert((pos.x + SCALE) * (size.width as int) >= -0x4000_0000_0000_0000) by (nonlinear_arith)
            requires
                -COORD_LIMIT <= pos.x <= COORD_LIMIT,
                1 <= size.width <= 0x8000,
        ;
        assert((pos.y + SCALE) * (size.height as int) <= 0x4000_0000_0000_0000) by (nonlinear_arith)
            requires
                -COORD_LIMIT <= pos.y <= COORD_LIMIT,
                1 <= size.height <= 0x8000,
        ;
        assert((pos.y + SCALE) * (size.height as int) >= -0x4000_0000_0000_0000) by (nonlinear_arith)
            requires
                -COORD_LIMIT <= pos.y <= COORD_LIMIT,
                1 <= size.height <= 0x8000,
        ;
    }
    let sx: i64 = div_toward_zero((pos.x + SCALE) * (size.width as i64), 2);
    let sy: i64 = div_toward_zero((pos.y + SCALE) * (size.height as i64), 2);
    Point3 { x: sx, y: sy, z: SCALE }
}

/// Law: projecting a clip-space coordinate to screen space and back
/// returns it up to one fixed-point unit of rounding.
pub proof fn lemma_projection_round_trip(c: int, extent_px: int)
    requires
        -SCALE <= c <= SCALE,
        1 <= extent_px,
    ensures
        c - 1 <= clip_of(screen_of(c, extent_px), extent_px) <= c,
{
    let s = SCALE as int;
    let e = extent_px;
    let t = (c + s) * e;
    assert(t >= 0) by (nonlinear_arith)
        requires
            t == (c + s) * e,
            c + s >= 0,
            e >= 1,
    ;
    let p = screen_of(c, e);
    assert(p == t / 2);
    lemma_fundamental_div_mod(t, 2);
    lemma_mod_bound(t, 2);
    let r2 = t % 2;
    assert(2 * p == t - r2);
    lemma_div_pos_is_pos(t, 2);
    assert(2 * p >= 0);
    assert(clip_of(p, e) == (2 * p) / e - s);
    if r2 == 0 {
        assert((2 * p) / e == ((c + s) * e) / e);
        lemma_fundamental_div_mod_converse((c + s) * e, e, c + s, 0);
        assert((2 * p) / e == c + s);
    } else {
        assert(2 * p == t - 1);
        assert(t - 1 == (c + s - 1) * e + (e - 1)) by (nonlinear_arith)
            requires
                t == (c + s) * e,
        ;
        lemma_fundamental_div_mod_converse(t - 1, e, c + s - 1, e - 1);
        assert((2 * p) / e == c + s - 1);
    }
}

} // verus!
