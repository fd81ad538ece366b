//! Axis-aligned rotation matrices and matrix-vector multiplication.
//!
//! A rotation is described by the fixed-point sine and cosine of its angle;
//! computing those two scalars (the only inexact step of the pipeline) is
//! left to the caller, so every function here carries an exact contract.

use vstd::prelude::*;

use crate::vector::Axis;
use crate::vector::FP_ONE;
use crate::vector::Vec3;
use crate::vector::Vector;
use crate::vector::tdiv;
use crate::vector::tdiv_i64;
use crate::vector::WORLD_MAX;

verus! {

/// A 3x3 matrix of fixed-point scalars, stored as three row vectors.
#[derive(Debug, Clone, Copy, PartialEq, Eq, Structural)]
pub struct Mat3 {
    pub r0: Vector,
    pub r1: Vector,
    pub r2: Vector,
}

/// The mathematical value of a [`Mat3`]: its rows as integer triples.
pub struct Mat3V {
    pub r0: Vec3,
    pub r1: Vec3,
    pub r2: Vec3,
}

impl View for Mat3 {
    type V = Mat3V;

    open spec fn view(&self) -> Mat3V {
        Mat3V { r0: self.r0@, r1: self.r1@, r2: self.r2@ }
    }
}

impl Mat3V {
    /// Every entry of the matrix within `m` of zero.
    pub open spec fn in_box(self, m: int) -> bool {
        self.r0.in_box(m) && self.r1.in_box(m) && self.r2.in_box(m)
    }

    /// The fixed-point product of this matrix with the column vector `v`:
    /// each row is dotted with `v` and the sum brought back to scale.
    pub open spec fn times(self, v: Vec3) -> Vec3 {
        Vec3 {
            x: tdiv(self.r0.dot_raw(v), FP_ONE as int),
            y: tdiv(self.r1.dot_raw(v), FP_ONE as int),
            z: tdiv(self.r2.dot_raw(v), FP_ONE as int),
        }
    }
}

/// The matrix for a right-handed rotation about `axis` whose angle has
/// fixed-point sine `s` and cosine `c`.  The placement of the negated sine
/// follows the usual per-axis convention.
pub open spec fn rotation_mat_spec(axis: Axis, s: int, c: int) -> Mat3V {
    match axis {
        Axis::X => Mat3V {
            r0: (Vec3 { x: FP_ONE as int, y: 0, z: 0 }),
            r1: (Vec3 { x: 0, y: c, z: -s }),
            r2: (Vec3 { x: 0, y: s, z: c }),
        },
        Axis::Y => Mat3V {
            r0: (Vec3 { x: c, y: 0, z: s }),
            r1: (Vec3 { x: 0, y: FP_ONE as int, z: 0 }),
            r2: (Vec3 { x: -s, y: 0, z: c }),
        },
        Axis::Z => Mat3V {
            r0: (Vec3 { x: c, y: -s, z: 0 }),
            r1: (Vec3 { x: s, y: c, z: 0 }),
            r2: (Vec3 { x: 0, y: 0, z: FP_ONE as int }),
        },
    }
}

/// Builds the rotation matrix about `axis` for the angle whose fixed-point
/// sine and cosine are `sin_fp` and `cos_fp`.
pub fn get_rotation_mat(axis: Axis, sin_fp: i64, cos_fp: i64) -> (r: Mat3)
    requires
        -FP_ONE <= sin_fp <= FP_ONE,
        -FP_ONE <= cos_fp <= FP_ONE,
    ensures
        r@ == rotation_mat_spec(axis, sin_fp as int, cos_fp as int),
        r@.in_box(FP_ONE as int),
{
    let s = sin_fp;
    let c = cos_fp;
    match axis {
        Axis::X => Mat3 {
            r0: Vector { x: FP_ONE, y: 0, z: 0 },
            r1: Vector { x: 0, y: c, z: -s },
            r2: Vector { x: 0, y: s, z: c },
        },
        Axis::Y => Mat3 {
            r0: Vector { x: c, y: 0, z: s },
            r1: Vector { x: 0, y: FP_ONE, z: 0 },
            r2: Vector { x: -s, y: 0, z: c },
        },
        Axis::Z => Mat3 {
            r0: Vector { x: c, y: -s, z: 0 },
            r1: Vector { x: s, y: c, z: 0 },
            r2: Vector { x: 0, y: 0, z: FP_ONE },
        },
    }
}

/// Multiplies `matrix` by the column vector `vec` in fixed point.  Matrix
/// entries must be unit-scale (rotation-matrix) scalars and the vector must
/// be in the working range; the result then stays within three times it.
pub fn mat_vec_mul(matrix: Mat3, vec: Vector) -> (r: Vector)
    requires
        matrix@.in_box(FP_ONE as int),
        vec@.in_world(),
    ensures
        r@ == matrix@.times(vec@),
        r@.in_box(3 * WORLD_MAX),
{
    Vector { x: row_dot(matrix.r0, vec), y: row_dot(matrix.r1, vec), z: row_dot(matrix.r2, vec) }
}

/// One row of the fixed-point matrix-vector product.
fn row_dot(row: Vector, vec: Vector) -> (r: i64)
    requires
        row@.in_box(FP_ONE as int),
        vec@.in_world(),
    ensures
        r == tdiv(row@.dot_raw(vec@), FP_ONE as int),
        -3 * (WORLD_MAX as int) <= r <= 3 * (WORLD_MAX as int),
{
    proof {
        lemma_box_mul(row@.x, vec@.x, FP_ONE as int, WORLD_MAX as int);
        lemma_box_mul(row@.y, vec@.y, FP_ONE as int, WORLD_MAX as int);
        lemma_box_mul(row@.z, vec@.z, FP_ONE as int, WORLD_MAX as int);
    }
    let raw = row.x * vec.x + row.y * vec.y + row.z * vec.z;
    let q = tdiv_i64(raw, FP_ONE);
    proof {
        lemma_tdiv_scales(raw as int, FP_ONE as int, 3 * (WORLD_MAX as int));
    }
    q
}

/// Dividing a multiple of the fixed-point unit by the unit is exact.
pub proof fn lemma_unit_div(a: int)
    ensures
        tdiv(a * FP_ONE, FP_ONE as int) == a,
{
    if a >= 0 {
        assert((a * FP_ONE) / (FP_ONE as int) == a) by (nonlinear_arith);
    } else {
        assert(((-a) * FP_ONE) / (FP_ONE as int) == -a) by (nonlinear_arith);
        assert(-(a * FP_ONE) == (-a) * FP_ONE) by (nonlinear_arith);
    }
}

/// Multiplication by a whole-unit scalar (`FP_ONE`, `-FP_ONE` or `0`),
/// descaled: the signed copy of `a` that the scalar selects.
pub open spec fn umul(k: int, a: int) -> int {
    if k == FP_ONE {
        a
    } else if k == -FP_ONE {
        -a
    } else {
        0
    }
}

/// The vertex a quarter- or half-turn maps `v` to: `s` and `c` are the
/// fixed-point sine and cosine, each one of `FP_ONE`, `-FP_ONE` or `0`.
pub open spec fn exact_turn_spec(axis: Axis, s: int, c: int, v: Vec3) -> Vec3 {
    match axis {
        Axis::X => Vec3 {
            x: v.x,
            y: umul(c, v.y) - umul(s, v.z),
            z: umul(s, v.y) + umul(c, v.z),
        },
        Axis::Y => Vec3 {
            x: umul(c, v.x) + umul(s, v.z),
            y: v.y,
            z: -umul(s, v.x) + umul(c, v.z),
        },
        Axis::Z => Vec3 {
            x: umul(c, v.x) - umul(s, v.y),
            y: umul(s, v.x) + umul(c, v.y),
            z: v.z,
        },
    }
}

/// For angles whose sine and cosine are whole units — quarter turns, half
/// turns and full turns — the fixed-point rotation is exact: no truncation
/// happens, and the result is the signed permutation [`exact_turn_spec`].
pub proof fn lemma_exact_turn(axis: Axis, s: int, c: int, v: Vec3)
    requires
        (s == 0 && (c == FP_ONE || c == -FP_ONE)) || (c == 0 && (s == FP_ONE || s == -FP_ONE)),
    ensures
        rotation_mat_spec(axis, s, c).times(v) == exact_turn_spec(axis, s, c, v),
{
    lemma_umul_scale(s, v.x);
    lemma_umul_scale(s, v.y);
    lemma_umul_scale(s, v.z);
    lemma_umul_scale(c, v.x);
    lemma_umul_scale(c, v.y);
    lemma_umul_scale(c, v.z);
    lemma_umul_scale(-s, v.x);
    lemma_umul_scale(-s, v.y);
    lemma_umul_scale(-s, v.z);
    lemma_umul_scale(FP_ONE as int, v.x);
    lemma_umul_scale(FP_ONE as int, v.y);
    lemma_umul_scale(FP_ONE as int, v.z);
    lemma_unit_div(v.x);
    lemma_unit_div(v.y);
    lemma_unit_div(v.z);
    lemma_unit_div(umul(c, v.y) - umul(s, v.z));
    lemma_unit_div(umul(s, v.y) + umul(c, v.z));
    lemma_unit_div(umul(c, v.x) + umul(s, v.z));
    lemma_unit_div(-umul(s, v.x) + umul(c, v.z));
    lemma_unit_div(umul(c, v.x) - umul(s, v.y));
    lemma_unit_div(umul(s, v.x) + umul(c, v.y));
}

/// A product with a whole-unit scalar is the descaled copy times the unit.
proof fn lemma_umul_scale(k: int, a: int)
    requires
        k == 0 || k == FP_ONE || k == -FP_ONE,
    ensures
        k * a == umul(k, a) * FP_ONE,
{
    assert(k * a == umul(k, a) * FP_ONE) by (nonlinear_arith)
        requires
            k == 0 || k == FP_ONE || k == -FP_ONE,
            umul(k, a) == (if k == FP_ONE {
                a
            } else if k == -FP_ONE {
                -a
            } else {
                0
            });
}

/// `|a| <= ma` and `|b| <= mb` bound the product by `ma * mb`.
proof fn lemma_box_mul(a: int, b: int, ma: int, mb: int)
    requires
        -ma <= a <= ma,
        -mb <= b <= mb,
        0 <= ma,
        0 <= mb,
    ensures
        -(ma * mb) <= a * b <= ma * mb,
{
    assert(-(ma * mb) <= a * b <= ma * mb) by (nonlinear_arith)
        requires
            -ma <= a <= ma,
            -mb <= b <= mb,
            0 <= ma,
            0 <= mb;
}

/// `|a| <= m * b` bounds the truncated quotient `a / b` by `m`.
proof fn lemma_tdiv_scales(a: int, b: int, m: int)
    requires
        1 <= b,
        0 <= m,
        -(m * b) <= a <= m * b,
    ensures
        -m <= tdiv(a, b) <= m,
{
    let p = if a >= 0 { a } else { -a };
    assert(0 <= p / b <= m) by (nonlinear_arith)
        requires
            1 <= b,
            0 <= m,
            0 <= p <= m * b;
}

} // verus!
