//! Exact fixed-point geometry: vectors, rectangles and affine transforms.
//!
//! Every stored coordinate is bounded by `COORD_LIMIT` so that the quad
//! arithmetic of the batcher provably stays within `i64`.

use vstd::prelude::*;

verus! {

/// Bound on every stored coordinate, matrix entry and clip bound.
/// The embedding chooses the fixed-point unit.
pub const COORD_LIMIT: i64 = 0x1000_0000;

/// A value small enough to be stored as a coordinate.
pub open spec fn in_coord(x: int) -> bool {
    -(COORD_LIMIT as int) <= x && x <= COORD_LIMIT as int
}

/// A value small enough to be a quad corner offset (rectangle extents are at
/// most twice `COORD_LIMIT`).
pub open spec fn in_corner(x: int) -> bool {
    -2 * (COORD_LIMIT as int) <= x && x <= 2 * (COORD_LIMIT as int)
}

/// Product of two values bounded by `m` and `n` is bounded by `m * n`.
pub proof fn lemma_mul_bound(a: int, b: int, m: int, n: int)
    by (nonlinear_arith)
    requires
        0 <= m,
        0 <= n,
        -m <= a,
        a <= m,
        -n <= b,
        b <= n,
    ensures
        -(m * n) <= a * b,
        a * b <= m * n,
{
}

/// Bound on any transformed corner coordinate: linear part applied to a
/// corner offset plus a translation.
pub open spec fn pos_limit() -> int {
    4 * (COORD_LIMIT as int) * (COORD_LIMIT as int) + (COORD_LIMIT as int)
}

/// A value in the range of transformed positions.
pub open spec fn in_pos(x: int) -> bool {
    -pos_limit() <= x && x <= pos_limit()
}

/// Multiplying by a non-negative factor is monotone.
pub proof fn lemma_mul_mono(a: int, b: int, c: int)
    by (nonlinear_arith)
    requires
        0 <= a,
        b <= c,
    ensures
        a * b <= a * c,
{
}

/// Distributivity of multiplication over subtraction.
pub proof fn lemma_mul_distrib_sub(a: int, b: int, c: int)
    by (nonlinear_arith)
    ensures
        a * (b - c) == a * b - a * c,
{
}

#[derive(Clone, Copy, PartialEq, Eq, Structural, Debug)]
pub struct Vec2i {
    pub x: i64,
    pub y: i64,
}

impl Vec2i {
    pub open spec fn wf(self) -> bool {
        in_coord(self.x as int) && in_coord(self.y as int)
    }
}

#[derive(Clone, Copy, PartialEq, Eq, Structural, Debug)]
pub struct Vec3i {
    pub x: i64,
    pub y: i64,
    pub z: i64,
}

/// An axis-aligned rectangle given by two corners, `min` componentwise at
/// most `max`.
#[derive(Clone, Copy, PartialEq, Eq, Structural, Debug)]
pub struct RectI {
    pub min: Vec2i,
    pub max: Vec2i,
}

impl RectI {
    pub open spec fn wf(self) -> bool {
        self.min.wf() && self.max.wf() && self.min.x <= self.max.x && self.min.y <= self.max.y
    }

    pub open spec fn spec_width(self) -> int {
        self.max.x - self.min.x
    }

    pub open spec fn spec_height(self) -> int {
        self.max.y - self.min.y
    }

    /// Width of the rectangle.
    pub fn width(&self) -> (w: i64)
        requires
            self.wf(),
        ensures
            w as int == self.spec_width(),
    {
        self.max.x - self.min.x
    }

    /// Height of the rectangle.
    pub fn height(&self) -> (h: i64)
        requires
            self.wf(),
        ensures
            h as int == self.spec_height(),
    {
        self.max.y - self.min.y
    }
}

/// A world transform: a 2x2 linear part, a translation, and a depth
/// translation `tz`. Points transform as
/// `(m00*x + m01*y + tx, m10*x + m11*y + ty, tz)`.
#[derive(Clone, Copy, PartialEq, Eq, Structural, Debug)]
pub struct Affine {
    pub m00: i64,
    pub m01: i64,
    pub m10: i64,
    pub m11: i64,
    pub tx: i64,
    pub ty: i64,
    pub tz: i64,
}

impl Affine {
    pub open spec fn wf(self) -> bool {
        &&& in_coord(self.m00 as int)
        &&& in_coord(self.m01 as int)
        &&& in_coord(self.m10 as int)
        &&& in_coord(self.m11 as int)
        &&& in_coord(self.tx as int)
        &&& in_coord(self.ty as int)
        &&& in_coord(self.tz as int)
    }

    pub open spec fn spec_apply_x(self, px: int, py: int) -> int {
        self.m00 * px + self.m01 * py + self.tx
    }

    pub open spec fn spec_apply_y(self, px: int, py: int) -> int {
        self.m10 * px + self.m11 * py + self.ty
    }

    /// Linear part only, as applied to a direction vector.
    pub open spec fn spec_lin_x(self, vx: int, vy: int) -> int {
        self.m00 * vx + self.m01 * vy
    }

    pub open spec fn spec_lin_y(self, vx: int, vy: int) -> int {
        self.m10 * vx + self.m11 * vy
    }

    /// The identity transform.
    pub fn identity() -> (r: Affine)
        ensures
            r == (Affine { m00: 1, m01: 0, m10: 0, m11: 1, tx: 0, ty: 0, tz: 0 }),
    {
        Affine { m00: 1, m01: 0, m10: 0, m11: 1, tx: 0, ty: 0, tz: 0 }
    }

    /// Transform a point; the depth of the result is the transform's `tz`.
    pub fn apply(&self, px: i64, py: i64) -> (r: Vec3i)
        requires
            self.wf(),
            in_corner(px as int),
            in_corner(py as int),
        ensures
            r.x as int == self.spec_apply_x(px as int, py as int),
            r.y as int == self.spec_apply_y(px as int, py as int),
            r.z == self.tz,
            in_pos(r.x as int),
            in_pos(r.y as int),
    {
        proof {
            lemma_mul_bound(self.m00 as int, px as int, COORD_LIMIT as int, 2 * (COORD_LIMIT as int));
            lemma_mul_bound(self.m01 as int, py as int, COORD_LIMIT as int, 2 * (COORD_LIMIT as int));
            lemma_mul_bound(self.m10 as int, px as int, COORD_LIMIT as int, 2 * (COORD_LIMIT as int));
            lemma_mul_bound(self.m11 as int, py as int, COORD_LIMIT as int, 2 * (COORD_LIMIT as int));
        }
        Vec3i {
            x: self.m00 * px + self.m01 * py + self.tx,
            y: self.m10 * px + self.m11 * py + self.ty,
            z: self.tz,
        }
    }

    /// Apply the linear part to a direction vector.
    pub fn lin_apply(&self, vx: i64, vy: i64) -> (r: Vec2i)
        requires
            self.wf(),
            in_corner(vx as int),
            in_corner(vy as int),
        ensures
            r.x as int == self.spec_lin_x(vx as int, vy as int),
            r.y as int == self.spec_lin_y(vx as int, vy as int),
            in_pos(r.x as int),
            in_pos(r.y as int),
    {
        proof {
            lemma_mul_bound(self.m00 as int, vx as int, COORD_LIMIT as int, 2 * (COORD_LIMIT as int));
            lemma_mul_bound(self.m01 as int, vy as int, COORD_LIMIT as int, 2 * (COORD_LIMIT as int));
            lemma_mul_bound(self.m10 as int, vx as int, COORD_LIMIT as int, 2 * (COORD_LIMIT as int));
            lemma_mul_bound(self.m11 as int, vy as int, COORD_LIMIT as int, 2 * (COORD_LIMIT as int));
        }
        Vec2i { x: self.m00 * vx + self.m01 * vy, y: self.m10 * vx + self.m11 * vy }
    }
}

/// Linear RGBA color in the embedding's fixed-point convention; carried
/// through to vertices unchanged. A node with `a == 0` is fully transparent.
#[derive(Clone, Copy, PartialEq, Eq, Structural, Debug)]
pub struct ColorRgba {
    pub r: i64,
    pub g: i64,
    pub b: i64,
    pub a: i64,
}

} // verus!
