//! Fixed-point plane and space coordinates, and the 3x3 integer orientation
//! transforms applied to glyph points before extrusion.
//!
//! All coordinates are integers. The centering stage works in doubled
//! coordinates (every length is carried twice over) so that the horizontal
//! bounding-box midpoint `(x_min + x_max) / 2` is representable exactly, with
//! no division and no rounding.

use vstd::prelude::*;

verus! {

/// Largest magnitude accepted for an untransformed point coordinate or an
/// extrusion thickness. Keeps every transform product inside `i64`.
pub const COORD_LIMIT: i64 = 0x40_0000_0000;

/// Largest magnitude accepted for an entry of an orientation matrix.
pub const MAT_LIMIT: i64 = 0x100;

/// A point of a glyph outline in the font's design-unit plane.
#[derive(Clone, Copy, PartialEq, Eq, Structural, Debug)]
pub struct Point2 {
    pub x: i64,
    pub y: i64,
}

/// A point of a transformed, depth-assigned contour in model space.
#[derive(Clone, Copy, PartialEq, Eq, Structural, Debug)]
pub struct Vec3 {
    pub x: i64,
    pub y: i64,
    pub z: i64,
}

/// A row-major 3x3 integer matrix: the orientation transform of one glyph.
#[derive(Clone, Copy, PartialEq, Eq, Structural, Debug)]
pub struct Mat3 {
    pub m00: i64,
    pub m01: i64,
    pub m02: i64,
    pub m10: i64,
    pub m11: i64,
    pub m12: i64,
    pub m20: i64,
    pub m21: i64,
    pub m22: i64,
}

/// The magnitude of an integer.
pub open spec fn iabs(a: int) -> int {
    if a < 0 {
        -a
    } else {
        a
    }
}

pub open spec fn point_in_bounds(p: Point2) -> bool {
    -COORD_LIMIT <= p.x <= COORD_LIMIT && -COORD_LIMIT <= p.y <= COORD_LIMIT
}

/// Bound on the components handed to a matrix application: wide enough for a
/// doubled, re-centered coordinate (at most four times `COORD_LIMIT`).
pub open spec fn vec_in_bounds(v: Vec3) -> bool {
    -4 * COORD_LIMIT <= v.x <= 4 * COORD_LIMIT
        && -4 * COORD_LIMIT <= v.y <= 4 * COORD_LIMIT
        && -4 * COORD_LIMIT <= v.z <= 4 * COORD_LIMIT
}

pub open spec fn mat_in_bounds(m: Mat3) -> bool {
    &&& -MAT_LIMIT <= m.m00 <= MAT_LIMIT
    &&& -MAT_LIMIT <= m.m01 <= MAT_LIMIT
    &&& -MAT_LIMIT <= m.m02 <= MAT_LIMIT
    &&& -MAT_LIMIT <= m.m10 <= MAT_LIMIT
    &&& -MAT_LIMIT <= m.m11 <= MAT_LIMIT
    &&& -MAT_LIMIT <= m.m12 <= MAT_LIMIT
    &&& -MAT_LIMIT <= m.m20 <= MAT_LIMIT
    &&& -MAT_LIMIT <= m.m21 <= MAT_LIMIT
    &&& -MAT_LIMIT <= m.m22 <= MAT_LIMIT
}

/// `m` is the identity orientation.
pub open spec fn is_identity(m: Mat3) -> bool {
    &&& m.m00 == 1 && m.m01 == 0 && m.m02 == 0
    &&& m.m10 == 0 && m.m11 == 1 && m.m12 == 0
    &&& m.m20 == 0 && m.m21 == 0 && m.m22 == 1
}

/// `m` is the quarter turn about the vertical axis.
pub open spec fn is_quarter_turn(m: Mat3) -> bool {
    &&& m.m00 == 0 && m.m01 == 0 && m.m02 == 1
    &&& m.m10 == 0 && m.m11 == 1 && m.m12 == 0
    &&& m.m20 == -1 && m.m21 == 0 && m.m22 == 0
}

impl Mat3 {
    /// The x component of this matrix applied to `(x, y, z)`, as an integer.
    pub open spec fn apply_x(self, x: int, y: int, z: int) -> int {
        self.m00 * x + self.m01 * y + self.m02 * z
    }

    pub open spec fn apply_y(self, x: int, y: int, z: int) -> int {
        self.m10 * x + self.m11 * y + self.m12 * z
    }

    pub open spec fn apply_z(self, x: int, y: int, z: int) -> int {
        self.m20 * x + self.m21 * y + self.m22 * z
    }

    /// The identity orientation: glyph read from the front.
    pub fn identity() -> (m: Mat3)
        ensures
            is_identity(m),
            mat_in_bounds(m),
    {
        Mat3 { m00: 1, m01: 0, m02: 0, m10: 0, m11: 1, m12: 0, m20: 0, m21: 0, m22: 1 }
    }

    /// A quarter turn about the vertical (y) axis: `x` goes to `-z`, `z` to
    /// `x`, so the glyph reads from the side.
    pub fn rotation_y_quarter() -> (m: Mat3)
        ensures
            is_quarter_turn(m),
            mat_in_bounds(m),
    {
        Mat3 { m00: 0, m01: 0, m02: 1, m10: 0, m11: 1, m12: 0, m20: -1, m21: 0, m22: 0 }
    }

    /// Applies this matrix to `v` with exact integer arithmetic.
    pub fn apply(&self, v: Vec3) -> (r: Vec3)
        requires
            mat_in_bounds(*self),
            vec_in_bounds(v),
        ensures
            r.x == self.apply_x(v.x as int, v.y as int, v.z as int),
            r.y == self.apply_y(v.x as int, v.y as int, v.z as int),
            r.z == self.apply_z(v.x as int, v.y as int, v.z as int),
    {
        proof {
            lemma_product_bound(self.m00 as int, v.x as int, MAT_LIMIT as int, 4 * COORD_LIMIT as int);
            lemma_product_bound(self.m01 as int, v.y as int, MAT_LIMIT as int, 4 * COORD_LIMIT as int);
            lemma_product_bound(self.m02 as int, v.z as int, MAT_LIMIT as int, 4 * COORD_LIMIT as int);
            lemma_product_bound(self.m10 as int, v.x as int, MAT_LIMIT as int, 4 * COORD_LIMIT as int);
            lemma_product_bound(self.m11 as int, v.y as int, MAT_LIMIT as int, 4 * COORD_LIMIT as int);
            lemma_product_bound(self.m12 as int, v.z as int, MAT_LIMIT as int, 4 * COORD_LIMIT as int);
            lemma_product_bound(self.m20 as int, v.x as int, MAT_LIMIT as int, 4 * COORD_LIMIT as int);
            lemma_product_bound(self.m21 as int, v.y as int, MAT_LIMIT as int, 4 * COORD_LIMIT as int);
            lemma_product_bound(self.m22 as int, v.z as int, MAT_LIMIT as int, 4 * COORD_LIMIT as int);
        }
        Vec3 {
            x: self.m00 * v.x + self.m01 * v.y + self.m02 * v.z,
            y: self.m10 * v.x + self.m11 * v.y + self.m12 * v.z,
            z: self.m20 * v.x + self.m21 * v.y + self.m22 * v.z,
        }
    }
}

/// `|a| <= bound_a` and `|b| <= bound_b` bound the product by the product of
/// the bounds.
pub proof fn lemma_product_bound(a: int, b: int, bound_a: int, bound_b: int)
    requires
        -bound_a <= a <= bound_a,
        -bound_b <= b <= bound_b,
        0 <= bound_a,
        0 <= bound_b,
    ensures
        -(bound_a * bound_b) <= a * b <= bound_a * bound_b,
{
    assert(-(bound_a * bound_b) <= a * b <= bound_a * bound_b) by (nonlinear_arith)
        requires
            -bound_a <= a <= bound_a,
            -bound_b <= b <= bound_b,
            0 <= bound_a,
            0 <= bound_b,
    ;
}

} // verus!
