//! Vectors and scalar conventions.
//!
//! Every scalar in this crate is a fixed-point number: an `i64` holding a
//! real value scaled by [`FP_ONE`] (16 fractional bits).  Arithmetic on such
//! scalars is exact integer arithmetic; where a product or quotient has to be
//! brought back to the fixed-point scale, the crate divides truncating toward
//! zero, which [`tdiv`] captures in specifications.

use vstd::prelude::*;

verus! {

/// The fixed-point scale: the representation of the real number `1`.
pub const FP_ONE: i64 = 65536;

/// Largest coordinate magnitude (in fixed-point units) that the rendering
/// pipeline accepts: about thirty thousand one-units either way.  The bound
/// keeps every intermediate value of the draw pipeline — up to the squared
/// norm of a face normal, a sixth-degree term — inside `i128`.
pub const WORLD_MAX: i64 = 500_000_000;

/// Truncating division (round toward zero), the semantics the crate uses
/// whenever a quotient is brought back to the fixed-point scale.  Spec-level
/// `/` on `int` is Euclidean, so the definition divides the magnitudes and
/// restores the sign.
pub open spec fn tdiv(a: int, b: int) -> int {
    let p = if a >= 0 { a } else { -a };
    let q = if b >= 0 { b } else { -b };
    if (a >= 0) == (b >= 0) {
        p / q
    } else {
        -(p / q)
    }
}

/// The mathematical value of a [`Vector`]: its three fixed-point coordinates
/// as unbounded integers.
pub struct Vec3 {
    pub x: int,
    pub y: int,
    pub z: int,
}

impl Vec3 {
    /// Componentwise sum.
    pub open spec fn plus(self, o: Vec3) -> Vec3 {
        Vec3 { x: self.x + o.x, y: self.y + o.y, z: self.z + o.z }
    }

    /// Componentwise difference.
    pub open spec fn minus(self, o: Vec3) -> Vec3 {
        Vec3 { x: self.x - o.x, y: self.y - o.y, z: self.z - o.z }
    }

    /// Cross product under this crate's sign convention: the middle component
    /// is negated relative to the textbook formula.  The culling and lighting
    /// logic depends on exactly this handedness.
    pub open spec fn cross(self, o: Vec3) -> Vec3 {
        Vec3 {
            x: self.y * o.z - self.z * o.y,
            y: -(self.x * o.z - self.z * o.x),
            z: self.x * o.y - self.y * o.x,
        }
    }

    /// Unscaled dot product: the plain sum of coordinate products, in units
    /// of `FP_ONE * FP_ONE`.
    pub open spec fn dot_raw(self, o: Vec3) -> int {
        self.x * o.x + self.y * o.y + self.z * o.z
    }

    /// The fixed-point cross product: each component of [`Vec3::cross`]
    /// brought back to scale.
    pub open spec fn cross_fp(self, o: Vec3) -> Vec3 {
        Vec3 {
            x: tdiv(self.cross(o).x, FP_ONE as int),
            y: tdiv(self.cross(o).y, FP_ONE as int),
            z: tdiv(self.cross(o).z, FP_ONE as int),
        }
    }

    /// Fixed-point dot product: the unscaled dot brought back to scale.
    pub open spec fn dot_fp(self, o: Vec3) -> int {
        tdiv(self.dot_raw(o), FP_ONE as int)
    }

    /// Squared Euclidean length, in units of `FP_ONE * FP_ONE`.
    pub open spec fn norm2(self) -> int {
        self.x * self.x + self.y * self.y + self.z * self.z
    }

    /// Componentwise fixed-point division by the scalar `n`.
    pub open spec fn scaled_div(self, n: int) -> Vec3 {
        Vec3 {
            x: tdiv(self.x * FP_ONE, n),
            y: tdiv(self.y * FP_ONE, n),
            z: tdiv(self.z * FP_ONE, n),
        }
    }

    /// All three coordinates within `m` of zero.
    pub open spec fn in_box(self, m: int) -> bool {
        &&& -m <= self.x <= m
        &&& -m <= self.y <= m
        &&& -m <= self.z <= m
    }

    /// All three coordinates within the pipeline's working range.
    pub open spec fn in_world(self) -> bool {
        self.in_box(WORLD_MAX as int)
    }

    /// All three coordinates representable as `i64`.
    pub open spec fn fits(self) -> bool {
        &&& i64::MIN <= self.x <= i64::MAX
        &&& i64::MIN <= self.y <= i64::MAX
        &&& i64::MIN <= self.z <= i64::MAX
    }
}

/// One of the three coordinate axes; names a rotation or translation
/// direction.
#[derive(Debug, Clone, Copy, PartialEq, Eq, Structural)]
pub enum Axis {
    X,
    Y,
    Z,
}

/// A 3D point or direction with fixed-point coordinates.
#[derive(Debug, Clone, Copy, PartialEq, Eq, Structural)]
pub struct Vector {
    pub x: i64,
    pub y: i64,
    pub z: i64,
}

impl View for Vector {
    type V = Vec3;

    open spec fn view(&self) -> Vec3 {
        Vec3 { x: self.x as int, y: self.y as int, z: self.z as int }
    }
}

impl Vector {
    /// Builds the vector with the given fixed-point coordinates.
    pub fn new(x: i64, y: i64, z: i64) -> (r: Vector)
        ensures
            r@ == (Vec3 { x: x as int, y: y as int, z: z as int }),
    {
        Vector { x, y, z }
    }

    /// Whether every coordinate lies in the pipeline's working range; hosts
    /// test this before handing a vector to the draw or rotate routines.
    pub fn is_in_world(&self) -> (r: bool)
        ensures
            r == self@.in_world(),
    {
        -WORLD_MAX <= self.x && self.x <= WORLD_MAX && -WORLD_MAX <= self.y && self.y <= WORLD_MAX
            && -WORLD_MAX <= self.z && self.z <= WORLD_MAX
    }

    /// Componentwise sum.
    pub fn add(self, o: Vector) -> (r: Vector)
        requires
            self@.plus(o@).fits(),
        ensures
            r@ == self@.plus(o@),
    {
        Vector { x: self.x + o.x, y: self.y + o.y, z: self.z + o.z }
    }

    /// Componentwise difference.
    pub fn sub(self, o: Vector) -> (r: Vector)
        requires
            self@.minus(o@).fits(),
        ensures
            r@ == self@.minus(o@),
    {
        Vector { x: self.x - o.x, y: self.y - o.y, z: self.z - o.z }
    }

    /// Componentwise fixed-point division by the scalar `n`; used to scale a
    /// vector by the reciprocal of its magnitude when normalizing.
    pub fn div(self, n: i64) -> (r: Vector)
        requires
            n != 0,
            -i64::MAX <= n,
            -i64::MAX <= self@.x * FP_ONE <= i64::MAX,
            -i64::MAX <= self@.y * FP_ONE <= i64::MAX,
            -i64::MAX <= self@.z * FP_ONE <= i64::MAX,
        ensures
            r@ == self@.scaled_div(n as int),
    {
        Vector {
            x: tdiv_i64(self.x * FP_ONE, n),
            y: tdiv_i64(self.y * FP_ONE, n),
            z: tdiv_i64(self.z * FP_ONE, n),
        }
    }

    /// The Euclidean length of the vector, rounded down to a whole
    /// fixed-point unit: the integer square root of `x*x + y*y + z*z`.
    pub fn magnitude(self) -> (r: i64)
        requires
            -MAG_MAX <= self@.x <= MAG_MAX,
            -MAG_MAX <= self@.y <= MAG_MAX,
            -MAG_MAX <= self@.z <= MAG_MAX,
        ensures
            0 <= r,
            r == sqrt_floor(self@.norm2()),
            r * r <= self@.norm2(),
            self@.norm2() < (r + 1) * (r + 1),
    {
        let x = self.x as i128;
        let y = self.y as i128;
        let z = self.z as i128;
        proof {
            lemma_square_bound(self@.x, MAG_MAX as int);
            lemma_square_bound(self@.y, MAG_MAX as int);
            lemma_square_bound(self@.z, MAG_MAX as int);
        }
        let n2 = x * x + y * y + z * z;
        let r = isqrt(n2 as u128);
        proof {
            lemma_square_mono(r as int, 4_500_000_000_000_000_000int);
            lemma_sqrt_floor_is(r as int, self@.norm2());
        }
        r as i64
    }
}

/// `MAG_MAX * MAG_MAX * 3` stays below `i128::MAX`, and the square root of
/// that sum stays below `i64::MAX`.
pub const MAG_MAX: i64 = 2_500_000_000_000_000_000;

/// Normalizing an axis-aligned vector is exact: scaling `(a, 0, 0)` by the
/// reciprocal of its magnitude `a` gives a vector of magnitude exactly one
/// unit.  (For general vectors both the square root and the division
/// truncate, so the magnitude after normalizing is one only up to the last
/// fixed-point digit.)
pub proof fn lemma_normalize_axis_exact(a: int)
    requires
        1 <= a,
    ensures
        sqrt_floor((Vec3 { x: a, y: 0, z: 0 }).norm2()) == a,
        (Vec3 { x: a, y: 0, z: 0 }).scaled_div(a) == (Vec3 { x: FP_ONE as int, y: 0, z: 0 }),
        sqrt_floor((Vec3 { x: a, y: 0, z: 0 }).scaled_div(a).norm2()) == FP_ONE,
{
    let v = Vec3 { x: a, y: 0, z: 0 };
    assert(v.norm2() == a * a);
    assert(a * a <= a * a && a * a < (a + 1) * (a + 1)) by (nonlinear_arith)
        requires
            1 <= a;
    lemma_sqrt_floor_is(a, a * a);
    assert((a * FP_ONE) / a == FP_ONE) by (nonlinear_arith)
        requires
            1 <= a;
    assert(tdiv(0, a) == 0);
    let u = v.scaled_div(a);
    assert(u == (Vec3 { x: FP_ONE as int, y: 0, z: 0 }));
    assert(u.norm2() == (FP_ONE as int) * (FP_ONE as int));
    assert((FP_ONE as int) * (FP_ONE as int) < (FP_ONE + 1) * (FP_ONE as int + 1))
        by (nonlinear_arith);
    lemma_sqrt_floor_is(FP_ONE as int, u.norm2());
}

/// The integer square root of `n`: the unique `r >= 0` with
/// `r * r <= n < (r + 1) * (r + 1)`.
pub open spec fn sqrt_floor(n: int) -> int {
    choose|r: int| 0 <= r && #[trigger] (r * r) <= n && n < (r + 1) * (r + 1)
}

/// Any `r` with the square-root bounds is `sqrt_floor(n)`.
pub proof fn lemma_sqrt_floor_is(r: int, n: int)
    requires
        0 <= r,
        r * r <= n,
        n < (r + 1) * (r + 1),
    ensures
        sqrt_floor(n) == r,
{
    assert(exists|q: int| 0 <= q && #[trigger] (q * q) <= n && n < (q + 1) * (q + 1)) by {
        assert(0 <= r && r * r <= n && n < (r + 1) * (r + 1));
    }
    let q = sqrt_floor(n);
    assert(q == r) by (nonlinear_arith)
        requires
            0 <= r,
            r * r <= n,
            n < (r + 1) * (r + 1),
            0 <= q,
            q * q <= n,
            n < (q + 1) * (q + 1);
}

/// Computes [`tdiv`] on `i64` operands, dividing the magnitudes as unsigned
/// numbers and restoring the sign.
pub(crate) fn tdiv_i64(a: i64, b: i64) -> (r: i64)
    requires
        b != 0,
        -i64::MAX <= a,
        -i64::MAX <= b,
    ensures
        r == tdiv(a as int, b as int),
        -(if a >= 0 { a as int } else { -(a as int) }) <= r
            <= (if a >= 0 { a as int } else { -(a as int) }),
{
    let p: u64 = if a >= 0 { a as u64 } else { (-a) as u64 };
    let q: u64 = if b >= 0 { b as u64 } else { (-b) as u64 };
    let d = p / q;
    proof {
        lemma_div_shrinks(p as int, q as int);
    }
    if (a >= 0) == (b >= 0) {
        d as i64
    } else {
        -(d as i64)
    }
}

/// `0 <= p / q <= p` for Euclidean division of nonnegative `p` by positive `q`.
proof fn lemma_div_shrinks(p: int, q: int)
    requires
        0 <= p,
        1 <= q,
    ensures
        0 <= p / q <= p,
{
    assert(0 <= p / q <= p) by (nonlinear_arith)
        requires
            0 <= p,
            1 <= q;
}

/// `|a| <= m` implies `a * a <= m * m`.
proof fn lemma_square_bound(a: int, m: int)
    requires
        -m <= a <= m,
    ensures
        0 <= a * a <= m * m,
{
    assert(0 <= a * a <= m * m) by (nonlinear_arith)
        requires
            -m <= a <= m;
}

/// Squaring is monotone on nonnegative integers, so a square-root bound
/// transfers to its argument.
proof fn lemma_square_mono(r: int, m: int)
    requires
        0 <= r,
        0 <= m,
        r * r <= m * m,
    ensures
        r <= m,
{
    assert(r <= m) by (nonlinear_arith)
        requires
            0 <= r,
            0 <= m,
            r * r <= m * m;
}

/// The integer square root: the largest `r` with `r * r <= n`.
fn isqrt(n: u128) -> (r: u64)
    ensures
        r * r <= n,
        n < (r + 1) * (r + 1),
{
    let mut lo: u64 = 0;
    let mut hi: u64 = u64::MAX;
    proof {
        assert((u64::MAX + 1) * (u64::MAX + 1) > u128::MAX) by (nonlinear_arith);
    }
    while lo < hi
        invariant
            lo <= hi,
            lo * lo <= n,
            n < (hi + 1) * (hi + 1),
        decreases hi - lo,
    {
        let mid = hi - (hi - lo) / 2;
        proof {
            assert(mid * mid <= u128::MAX) by (nonlinear_arith)
                requires
                    mid <= u64::MAX;
        }
        if (mid as u128) * (mid as u128) <= n {
            lo = mid;
        } else {
            hi = mid - 1;
        }
    }
    lo
}

/// The cross product of `v1` and `v2` in fixed point, under this crate's
/// sign convention (negated middle term); see [`Vec3::cross`] and
/// [`Vec3::cross_fp`].
pub fn cross_product(v1: Vector, v2: Vector) -> (r: Vector)
    requires
        v1@.cross(v2@).fits(),
    ensures
        r@ == v1@.cross_fp(v2@),
{
    proof {
        lemma_i64_mul_fits(v1@.x, v2@.y);
        lemma_i64_mul_fits(v1@.x, v2@.z);
        lemma_i64_mul_fits(v1@.y, v2@.x);
        lemma_i64_mul_fits(v1@.y, v2@.z);
        lemma_i64_mul_fits(v1@.z, v2@.x);
        lemma_i64_mul_fits(v1@.z, v2@.y);
    }
    let cx = (v1.y as i128) * (v2.z as i128) - (v1.z as i128) * (v2.y as i128);
    let cy = -((v1.x as i128) * (v2.z as i128) - (v1.z as i128) * (v2.x as i128));
    let cz = (v1.x as i128) * (v2.y as i128) - (v1.y as i128) * (v2.x as i128);
    Vector {
        x: tdiv_i128(cx, FP_ONE as i128) as i64,
        y: tdiv_i128(cy, FP_ONE as i128) as i64,
        z: tdiv_i128(cz, FP_ONE as i128) as i64,
    }
}

/// The fixed-point dot product of `v1` and `v2`: the sum of coordinate
/// products, brought back to the fixed-point scale.
pub fn dot_product(v1: Vector, v2: Vector) -> (r: i64)
    requires
        -MAG_MAX <= v1@.x <= MAG_MAX && -MAG_MAX <= v1@.y <= MAG_MAX
            && -MAG_MAX <= v1@.z <= MAG_MAX,
        -MAG_MAX <= v2@.x <= MAG_MAX && -MAG_MAX <= v2@.y <= MAG_MAX
            && -MAG_MAX <= v2@.z <= MAG_MAX,
        -i64::MAX <= v1@.dot_fp(v2@) <= i64::MAX,
    ensures
        r == v1@.dot_fp(v2@),
{
    proof {
        lemma_mul_bound(v1@.x, v2@.x, MAG_MAX as int);
        lemma_mul_bound(v1@.y, v2@.y, MAG_MAX as int);
        lemma_mul_bound(v1@.z, v2@.z, MAG_MAX as int);
    }
    let raw = (v1.x as i128) * (v2.x as i128) + (v1.y as i128) * (v2.y as i128)
        + (v1.z as i128) * (v2.z as i128);
    tdiv_i128(raw, FP_ONE as i128) as i64
}

/// Computes [`tdiv`] on `i128` operands, dividing the magnitudes as unsigned
/// numbers and restoring the sign.
pub(crate) fn tdiv_i128(a: i128, b: i128) -> (r: i128)
    requires
        b != 0,
        -i128::MAX <= a,
        -i128::MAX <= b,
    ensures
        r == tdiv(a as int, b as int),
        -(if a >= 0 { a as int } else { -(a as int) }) <= r
            <= (if a >= 0 { a as int } else { -(a as int) }),
{
    let p: u128 = if a >= 0 { a as u128 } else { (-a) as u128 };
    let q: u128 = if b >= 0 { b as u128 } else { (-b) as u128 };
    let d = p / q;
    proof {
        lemma_div_shrinks(p as int, q as int);
    }
    if (a >= 0) == (b >= 0) {
        d as i128
    } else {
        -(d as i128)
    }
}

/// The product of two `i64`-ranged integers keeps a comfortable margin
/// inside the `i128` range.
proof fn lemma_i64_mul_fits(a: int, b: int)
    requires
        i64::MIN <= a <= i64::MAX,
        i64::MIN <= b <= i64::MAX,
    ensures
        -0x4000_0000_0000_0000_0000_0000_0000_0000 <= a * b
            <= 0x4000_0000_0000_0000_0000_0000_0000_0000,
{
    assert(-0x4000_0000_0000_0000_0000_0000_0000_0000 <= a * b
        <= 0x4000_0000_0000_0000_0000_0000_0000_0000) by (nonlinear_arith)
        requires
            i64::MIN <= a <= i64::MAX,
            i64::MIN <= b <= i64::MAX;
}

/// `|a| <= m` and `|b| <= m` bound the product by `m * m`.
proof fn lemma_mul_bound(a: int, b: int, m: int)
    requires
        -m <= a <= m,
        -m <= b <= m,
    ensures
        -(m * m) <= a * b <= m * m,
{
    assert(-(m * m) <= a * b <= m * m) by (nonlinear_arith)
        requires
            -m <= a <= m,
            -m <= b <= m;
}

} // verus!
