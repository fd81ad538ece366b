//! Triangles and the per-face draw pipeline: camera offset, backface
//! culling, flat lighting, perspective projection and screen mapping.
//!
//! `draw` performs every step the renderer needs up to the actual line
//! drawing and hands back a [`DrawCommand`] — the shade and the three screen
//! points of the outline — so the host only has to draw three segments.

use vstd::prelude::*;

use crate::vector::Axis;
use crate::vector::FP_ONE;
use crate::vector::Vec3;
use crate::vector::Vector;
use crate::vector::WORLD_MAX;
use crate::vector::sqrt_floor;
use crate::vector::tdiv;
use crate::vector::tdiv_i64;
use crate::vector::tdiv_i128;
use crate::rotation::get_rotation_mat;
use crate::rotation::mat_vec_mul;
use crate::rotation::rotation_mat_spec;
use crate::rotation::lemma_exact_turn;

verus! {

/// The camera sits five one-units behind the model: every vertex is pushed
/// by this much along `+z` before culling and projection.
pub const CAM_OFFSET: i64 = 327680;

/// The logical canvas is a square of this many pixels.
pub const SCREEN_SIZE: i64 = 600;

/// An ordered triple of vertices.  The order fixes the winding, and with it
/// the direction of the face normal used for culling and lighting.
#[derive(Debug, Clone, Copy, PartialEq, Eq)]
pub struct Triangle {
    pub vertices: [Vector; 3],
}

impl View for Triangle {
    type V = Seq<Vec3>;

    open spec fn view(&self) -> Seq<Vec3> {
        seq![self.vertices[0]@, self.vertices[1]@, self.vertices[2]@]
    }
}

/// A point in pixel coordinates, origin at the top-left corner.
#[derive(Debug, Clone, Copy, PartialEq, Eq, Structural)]
pub struct ScreenPoint {
    pub x: i64,
    pub y: i64,
}

/// Everything the host needs to draw one visible triangle: a flat gray
/// shade in `0..=255` and the three projected outline corners, to be
/// connected pairwise (first-second, second-third, third-first).
#[derive(Debug, Clone, Copy, PartialEq, Eq)]
pub struct DrawCommand {
    pub shade: u8,
    pub points: [ScreenPoint; 3],
}

/// All three vertices of a triangle view within the working range.
pub open spec fn tri_in_world(t: Seq<Vec3>) -> bool {
    t.len() == 3 && t[0].in_world() && t[1].in_world() && t[2].in_world()
}

/// The camera offset applied to one vertex.
pub open spec fn offset_spec(v: Vec3) -> Vec3 {
    Vec3 { x: v.x, y: v.y, z: v.z + CAM_OFFSET }
}

/// The (unnormalized) face normal of the offset triangle: the cross product
/// of its two edge vectors, in this crate's sign convention.
pub open spec fn normal_raw(t: Seq<Vec3>) -> Vec3 {
    let o0 = offset_spec(t[0]);
    let o1 = offset_spec(t[1]);
    let o2 = offset_spec(t[2]);
    (o1.minus(o0)).cross(o2.minus(o0))
}

/// The culling value: the dot of the face normal with the first offset
/// vertex.  The face is visible exactly when it is negative; normalizing the
/// normal never changes the sign, so the raw dot decides.
pub open spec fn cull_value(t: Seq<Vec3>) -> int {
    normal_raw(t).dot_raw(offset_spec(t[0]))
}

/// Clamping to the byte range, as a shade must be.
pub open spec fn clamp255(v: int) -> int {
    if v < 0 {
        0
    } else if v > 255 {
        255
    } else {
        v
    }
}

/// The flat shade of a visible face: the dot of the unit light direction
/// `(0, 0, -1)` with the unit normal — which is just the negated `z` of the
/// normal over its length — scaled to `0..=255`.
pub open spec fn shade_spec(t: Seq<Vec3>) -> int {
    let n = normal_raw(t);
    clamp255(tdiv(-255 * n.z, sqrt_floor(n.norm2())))
}

/// Perspective projection of one offset vertex: `x` and `y` are divided by
/// the depth.  The aspect ratio is one (square canvas) and the
/// field-of-view factor is the tangent of forty-five degrees, exactly one,
/// so both multipliers are the fixed-point unit.
pub open spec fn project_spec(v: Vec3) -> Vec3 {
    Vec3 { x: tdiv(v.x * FP_ONE, v.z), y: tdiv(v.y * FP_ONE, v.z), z: v.z }
}

/// Device-to-screen mapping of a projected vertex, still in fixed point:
/// `(x + 1) * 300` and `(-y + 1) * 300` put the unit square on the 600-pixel
/// canvas with `y` growing downward.
pub open spec fn screen_spec(v: Vec3) -> Vec3 {
    Vec3 {
        x: (v.x + FP_ONE) * (SCREEN_SIZE / 2),
        y: (-v.y + FP_ONE) * (SCREEN_SIZE / 2),
        z: v.z,
    }
}

/// The final pixel coordinates of one offset vertex: projected, mapped to
/// the screen, and truncated to whole pixels.
pub open spec fn pixel_spec(v: Vec3) -> Vec3 {
    let s = screen_spec(project_spec(v));
    Vec3 { x: tdiv(s.x, FP_ONE as int), y: tdiv(s.y, FP_ONE as int), z: s.z }
}

/// A triangle produces output exactly when its face is visible (negative
/// culling value) and no offset vertex lies in the camera plane, where the
/// perspective divide is undefined.
pub open spec fn drawable(t: Seq<Vec3>) -> bool {
    &&& cull_value(t) < 0
    &&& offset_spec(t[0]).z != 0
    &&& offset_spec(t[1]).z != 0
    &&& offset_spec(t[2]).z != 0
}

/// The mathematical value of a [`DrawCommand`]: the shade and the three
/// pixel corners as integers.
pub struct CmdV {
    pub shade: int,
    pub p0: Vec3,
    pub p1: Vec3,
    pub p2: Vec3,
}

impl View for DrawCommand {
    type V = CmdV;

    open spec fn view(&self) -> CmdV {
        CmdV { shade: self.shade as int, p0: self.points[0]@, p1: self.points[1]@, p2: self.points[2]@ }
    }
}

/// The pixel corner that vertex `i` of triangle `t` projects to.
pub open spec fn corner_spec(t: Seq<Vec3>, i: int) -> Vec3 {
    let p = pixel_spec(offset_spec(t[i]));
    Vec3 { x: p.x, y: p.y, z: 0 }
}

/// What the draw pipeline produces for the triangle view `t`: nothing for a
/// culled or degenerate face, otherwise the shade and the three corners.
pub open spec fn draw_spec(t: Seq<Vec3>) -> Option<CmdV> {
    if drawable(t) {
        Some(
            CmdV {
                shade: shade_spec(t),
                p0: corner_spec(t, 0),
                p1: corner_spec(t, 1),
                p2: corner_spec(t, 2),
            },
        )
    } else {
        None
    }
}

/// The value of an optional draw command.
pub open spec fn opt_cmd_view(r: Option<DrawCommand>) -> Option<CmdV> {
    match r {
        Some(c) => Some(c@),
        None => None,
    }
}

impl Triangle {
    /// Builds the triangle with the given vertices, in order.
    pub fn new(vertices: [Vector; 3]) -> (r: Triangle)
        ensures
            r@ == seq![vertices[0]@, vertices[1]@, vertices[2]@],
    {
        Triangle { vertices }
    }

    /// Runs the draw pipeline on this triangle: offsets it away from the
    /// camera, culls it if its face points away, and otherwise computes the
    /// flat shade and the three projected outline corners.
    pub fn draw(&self) -> (r: Option<DrawCommand>)
        requires
            tri_in_world(self@),
        ensures
            opt_cmd_view(r) == draw_spec(self@),
            r is Some <==> drawable(self@),
    {
        let o0 = offset_vertex(self.vertices[0]);
        let o1 = offset_vertex(self.vertices[1]);
        let o2 = offset_vertex(self.vertices[2]);

        let e1x = (o1.x - o0.x) as i128;
        let e1y = (o1.y - o0.y) as i128;
        let e1z = (o1.z - o0.z) as i128;
        let e2x = (o2.x - o0.x) as i128;
        let e2y = (o2.y - o0.y) as i128;
        let e2z = (o2.z - o0.z) as i128;
        proof {
            let w2 = 2 * (WORLD_MAX + CAM_OFFSET) as int;
            lemma_mul_le(o1@.y - o0@.y, o2@.z - o0@.z, w2, w2);
            lemma_mul_le(o1@.z - o0@.z, o2@.y - o0@.y, w2, w2);
            lemma_mul_le(o1@.x - o0@.x, o2@.z - o0@.z, w2, w2);
            lemma_mul_le(o1@.z - o0@.z, o2@.x - o0@.x, w2, w2);
            lemma_mul_le(o1@.x - o0@.x, o2@.y - o0@.y, w2, w2);
            lemma_mul_le(o1@.y - o0@.y, o2@.x - o0@.x, w2, w2);
        }
        let nx = e1y * e2z - e1z * e2y;
        let ny = -(e1x * e2z - e1z * e2x);
        let nz = e1x * e2y - e1y * e2x;
        assert((Vec3 { x: nx as int, y: ny as int, z: nz as int }) == normal_raw(self@));

        proof {
            let nb = 2 * (2 * (WORLD_MAX + CAM_OFFSET) as int) * (2 * (WORLD_MAX + CAM_OFFSET)
                as int);
            lemma_mul_le(nx as int, o0@.x, nb, (WORLD_MAX + CAM_OFFSET) as int);
            lemma_mul_le(ny as int, o0@.y, nb, (WORLD_MAX + CAM_OFFSET) as int);
            lemma_mul_le(nz as int, o0@.z, nb, (WORLD_MAX + CAM_OFFSET) as int);
        }
        let cull = nx * (o0.x as i128) + ny * (o0.y as i128) + nz * (o0.z as i128);
        assert(cull as int == cull_value(self@));
        if cull >= 0 {
            return None;
        }
        if o0.z == 0 || o1.z == 0 || o2.z == 0 {
            return None;
        }

        let normal = Vector { x: nx as i64, y: ny as i64, z: nz as i64 };
        let mag = normal.magnitude();
        proof {
            lemma_normal_nonzero(self@);
            if mag == 0 {
                assert(normal_raw(self@).norm2() < 1);
            }
        }
        let shade_q = tdiv_i128(-255 * (nz as i128), mag as i128);
        let shade: u8 = if shade_q < 0 {
            0
        } else if shade_q > 255 {
            255
        } else {
            shade_q as u8
        };

        Some(DrawCommand { shade, points: [pixel_vertex(o0), pixel_vertex(o1), pixel_vertex(o2)] })
    }

    /// Rotates every vertex in place by the rotation about `axis` whose
    /// fixed-point sine and cosine are `sin_fp` and `cos_fp`, and returns
    /// the rotated triangle for chaining.
    pub fn rotate(&mut self, axis: Axis, sin_fp: i64, cos_fp: i64) -> (r: Triangle)
        requires
            -FP_ONE <= sin_fp <= FP_ONE,
            -FP_ONE <= cos_fp <= FP_ONE,
            tri_in_world(old(self)@),
        ensures
            final(self)@ == rotate_tri_spec(old(self)@, axis, sin_fp as int, cos_fp as int),
            r == *final(self),
    {
        let m = get_rotation_mat(axis, sin_fp, cos_fp);
        self.vertices = [
            mat_vec_mul(m, self.vertices[0]),
            mat_vec_mul(m, self.vertices[1]),
            mat_vec_mul(m, self.vertices[2]),
        ];
        proof {
            assert(final(self)@ =~= rotate_tri_spec(
                old(self)@,
                axis,
                sin_fp as int,
                cos_fp as int,
            ));
        }
        *self
    }

    /// Moves every vertex in place by the signed `distance` along `axis`,
    /// and returns the translated triangle for chaining.
    pub fn translate(&mut self, axis: Axis, distance: i64) -> (r: Triangle)
        requires
            old(self)@.len() == 3,
            forall|i: int|
                0 <= i < 3 ==> (#[trigger] old(self)@[i]).plus(
                    axis_delta(axis, distance as int),
                ).fits(),
        ensures
            final(self)@ == translate_tri_spec(old(self)@, axis, distance as int),
            r == *final(self),
    {
        let dv = match axis {
            Axis::X => Vector { x: distance, y: 0, z: 0 },
            Axis::Y => Vector { x: 0, y: distance, z: 0 },
            Axis::Z => Vector { x: 0, y: 0, z: distance },
        };
        self.vertices = [
            self.vertices[0].add(dv),
            self.vertices[1].add(dv),
            self.vertices[2].add(dv),
        ];
        proof {
            assert(final(self)@ =~= translate_tri_spec(old(self)@, axis, distance as int));
        }
        *self
    }

    /// The barycentric sign test: `p` lies inside the triangle spanned by
    /// the first three vertices exactly when the three edge cross products
    /// all have the same sign (or vanish).  Only `x` and `y` matter: the
    /// test is meant for screen-space points.
    pub fn point_is_inside_triangle(vertices: &Vec<Vector>, p: Vector) -> (r: bool)
        requires
            vertices@.len() >= 3,
            vertices@[0]@.in_world(),
            vertices@[1]@.in_world(),
            vertices@[2]@.in_world(),
            p@.in_world(),
        ensures
            r == {
                let c1 = edge_side(vertices@[0]@, vertices@[1]@, p@);
                let c2 = edge_side(vertices@[1]@, vertices@[2]@, p@);
                let c3 = edge_side(vertices@[2]@, vertices@[0]@, p@);
                (c1 >= 0 && c2 >= 0 && c3 >= 0) || (c1 <= 0 && c2 <= 0 && c3 <= 0)
            },
    {
        let c1 = edge_side_exec(vertices[0], vertices[1], p);
        let c2 = edge_side_exec(vertices[1], vertices[2], p);
        let c3 = edge_side_exec(vertices[2], vertices[0], p);
        (c1 >= 0 && c2 >= 0 && c3 >= 0) || (c1 <= 0 && c2 <= 0 && c3 <= 0)
    }
}

/// The rotation of every vertex of `t` by the axis rotation with fixed-point
/// sine `s` and cosine `c`.
pub open spec fn rotate_tri_spec(t: Seq<Vec3>, axis: Axis, s: int, c: int) -> Seq<Vec3> {
    t.map_values(|v: Vec3| rotation_mat_spec(axis, s, c).times(v))
}

/// The unit step along `axis` scaled by `d`.
pub open spec fn axis_delta(axis: Axis, d: int) -> Vec3 {
    match axis {
        Axis::X => Vec3 { x: d, y: 0, z: 0 },
        Axis::Y => Vec3 { x: 0, y: d, z: 0 },
        Axis::Z => Vec3 { x: 0, y: 0, z: d },
    }
}

/// The translation of every vertex of `t` by `d` along `axis`.
pub open spec fn translate_tri_spec(t: Seq<Vec3>, axis: Axis, d: int) -> Seq<Vec3> {
    t.map_values(|v: Vec3| v.plus(axis_delta(axis, d)))
}

/// The `z` of the cross product of edge `a -> b` with `a -> p`: positive on
/// one side of the edge, negative on the other.
pub open spec fn edge_side(a: Vec3, b: Vec3, p: Vec3) -> int {
    (b.minus(a)).cross(p.minus(a)).z
}

/// Computes [`edge_side`] with wide intermediates.
fn edge_side_exec(a: Vector, b: Vector, p: Vector) -> (r: i128)
    requires
        a@.in_world(),
        b@.in_world(),
        p@.in_world(),
    ensures
        r as int == edge_side(a@, b@, p@),
{
    let abx = (b.x - a.x) as i128;
    let aby = (b.y - a.y) as i128;
    let apx = (p.x - a.x) as i128;
    let apy = (p.y - a.y) as i128;
    proof {
        lemma_world_diff_products(a@, b@, p@);
    }
    abx * apy - aby * apx
}

/// Applies the camera offset to one vertex.
fn offset_vertex(v: Vector) -> (r: Vector)
    requires
        v@.in_world(),
    ensures
        r@ == offset_spec(v@),
        r@.in_box(WORLD_MAX + CAM_OFFSET),
{
    Vector { x: v.x, y: v.y, z: v.z + CAM_OFFSET }
}

/// Projects one offset vertex and maps it to whole pixels.
fn pixel_vertex(o: Vector) -> (r: ScreenPoint)
    requires
        o@.in_box(WORLD_MAX + CAM_OFFSET),
        o@.z != 0,
    ensures
        r@ == (Vec3 { x: pixel_spec(o@).x, y: pixel_spec(o@).y, z: 0 }),
{
    let px = tdiv_i64(o.x * FP_ONE, o.z);
    let py = tdiv_i64(o.y * FP_ONE, o.z);
    let sx = (px + FP_ONE) * 300;
    let sy = (-py + FP_ONE) * 300;
    ScreenPoint { x: tdiv_i64(sx, FP_ONE), y: tdiv_i64(sy, FP_ONE) }
}

impl View for ScreenPoint {
    type V = Vec3;

    open spec fn view(&self) -> Vec3 {
        Vec3 { x: self.x as int, y: self.y as int, z: 0 }
    }
}

/// Rotating a triangle by an exact quarter or half turn and then by the
/// opposite turn returns every vertex unchanged: for these angles the
/// fixed-point sine and cosine are themselves exact, so the rotation loses
/// nothing.  For other angles the two scalars are rounded and the round
/// trip is only approximate.
pub proof fn lemma_rotation_round_trip(t: Seq<Vec3>, axis: Axis, s: int, c: int)
    requires
        (s == 0 && (c == FP_ONE || c == -FP_ONE)) || (c == 0 && (s == FP_ONE || s == -FP_ONE)),
    ensures
        rotate_tri_spec(rotate_tri_spec(t, axis, s, c), axis, -s, c) == t,
{
    let once = rotate_tri_spec(t, axis, s, c);
    let back = rotate_tri_spec(once, axis, -s, c);
    assert forall|i: int| 0 <= i < t.len() implies back[i] == t[i] by {
        lemma_exact_turn(axis, s, c, t[i]);
        lemma_exact_turn(axis, -s, c, once[i]);
    }
    assert(back =~= t);
}

/// Rotating a triangle by a half turn about one axis twice — a full 360
/// degrees — returns every vertex unchanged.
pub proof fn lemma_two_half_turns(t: Seq<Vec3>, axis: Axis)
    ensures
        rotate_tri_spec(
            rotate_tri_spec(t, axis, 0, -(FP_ONE as int)),
            axis,
            0,
            -(FP_ONE as int),
        ) == t,
{
    let once = rotate_tri_spec(t, axis, 0, -(FP_ONE as int));
    let back = rotate_tri_spec(once, axis, 0, -(FP_ONE as int));
    assert forall|i: int| 0 <= i < t.len() implies back[i] == t[i] by {
        lemma_exact_turn(axis, 0, -(FP_ONE as int), t[i]);
        lemma_exact_turn(axis, 0, -(FP_ONE as int), once[i]);
    }
    assert(back =~= t);
}

/// Rotating a triangle by a quarter turn about one axis four times — a
/// full 360 degrees — returns every vertex unchanged.
pub proof fn lemma_four_quarter_turns(t: Seq<Vec3>, axis: Axis)
    ensures
        rotate_tri_spec(
            rotate_tri_spec(
                rotate_tri_spec(rotate_tri_spec(t, axis, FP_ONE as int, 0), axis, FP_ONE as int, 0),
                axis,
                FP_ONE as int,
                0,
            ),
            axis,
            FP_ONE as int,
            0,
        ) == t,
{
    let r1 = rotate_tri_spec(t, axis, FP_ONE as int, 0);
    let r2 = rotate_tri_spec(r1, axis, FP_ONE as int, 0);
    let r3 = rotate_tri_spec(r2, axis, FP_ONE as int, 0);
    let r4 = rotate_tri_spec(r3, axis, FP_ONE as int, 0);
    assert forall|i: int| 0 <= i < t.len() implies r4[i] == t[i] by {
        lemma_exact_turn(axis, FP_ONE as int, 0, t[i]);
        lemma_exact_turn(axis, FP_ONE as int, 0, r1[i]);
        lemma_exact_turn(axis, FP_ONE as int, 0, r2[i]);
        lemma_exact_turn(axis, FP_ONE as int, 0, r3[i]);
    }
    assert(r4 =~= t);
}

/// The cross product flips sign when its arguments swap.
proof fn lemma_cross_antisym(a: Vec3, b: Vec3)
    ensures
        b.cross(a) == (Vec3 { x: -a.cross(b).x, y: -a.cross(b).y, z: -a.cross(b).z }),
{
    assert(b.y * a.z - b.z * a.y == -(a.y * b.z - a.z * b.y)) by (nonlinear_arith);
    assert(-(b.x * a.z - b.z * a.x) == -(-(a.x * b.z - a.z * b.x))) by (nonlinear_arith);
    assert(b.x * a.y - b.y * a.x == -(a.x * b.y - a.y * b.x)) by (nonlinear_arith);
}

/// The dot of a negated vector is the negated dot.
proof fn lemma_dot_neg(n: Vec3, w: Vec3)
    ensures
        (Vec3 { x: -n.x, y: -n.y, z: -n.z }).dot_raw(w) == -n.dot_raw(w),
{
    assert((-n.x) * w.x + (-n.y) * w.y + (-n.z) * w.z == -(n.x * w.x + n.y * w.y + n.z * w.z))
        by (nonlinear_arith);
}

/// Reversing the winding of a triangle — swapping its last two vertices —
/// negates the culling value; so whenever the face is not seen exactly
/// edge-on and sits clear of the camera plane, reversing the winding flips
/// its visibility.
pub proof fn lemma_winding_flips_visibility(t: Seq<Vec3>)
    requires
        t.len() == 3,
    ensures
        cull_value(seq![t[0], t[2], t[1]]) == -cull_value(t),
        cull_value(t) != 0 && offset_spec(t[0]).z != 0 && offset_spec(t[1]).z != 0 && offset_spec(
            t[2],
        ).z != 0 ==> (drawable(t) <==> !drawable(seq![t[0], t[2], t[1]])),
{
    let rev = seq![t[0], t[2], t[1]];
    let o0 = offset_spec(t[0]);
    let o1 = offset_spec(t[1]);
    let o2 = offset_spec(t[2]);
    lemma_cross_antisym(o1.minus(o0), o2.minus(o0));
    lemma_dot_neg(normal_raw(t), o0);
}

/// Bounds for the screen-space edge products of in-world points.
proof fn lemma_world_diff_products(a: Vec3, b: Vec3, p: Vec3)
    requires
        a.in_world(),
        b.in_world(),
        p.in_world(),
    ensures
        -(4 * (WORLD_MAX as int) * (WORLD_MAX as int)) <= (b.x - a.x) * (p.y - a.y)
            <= 4 * (WORLD_MAX as int) * (WORLD_MAX as int),
        -(4 * (WORLD_MAX as int) * (WORLD_MAX as int)) <= (b.y - a.y) * (p.x - a.x)
            <= 4 * (WORLD_MAX as int) * (WORLD_MAX as int),
{
    let w = 2 * WORLD_MAX as int;
    lemma_mul_le(b.x - a.x, p.y - a.y, w, w);
    lemma_mul_le(b.y - a.y, p.x - a.x, w, w);
    assert(w * w == 4 * (WORLD_MAX as int) * (WORLD_MAX as int)) by (nonlinear_arith)
        requires
            w == 2 * (WORLD_MAX as int);
}

/// `|a| <= ma` and `|b| <= mb` bound the product by `ma * mb`.
proof fn lemma_mul_le(a: int, b: int, ma: int, mb: int)
    requires
        -ma <= a <= ma,
        -mb <= b <= mb,
        0 <= ma,
        0 <= mb,
    ensures
        -(ma * mb) <= a * b <= ma * mb,
{
    assert(-(ma * mb) <= a * b <= ma * mb) by (nonlinear_arith)
        requires
            -ma <= a <= ma,
            -mb <= b <= mb,
            0 <= ma,
            0 <= mb;
}

/// A face with a nonzero culling value has a nonzero normal, so the
/// normal's squared norm is positive.
proof fn lemma_normal_nonzero(t: Seq<Vec3>)
    requires
        tri_in_world(t),
        cull_value(t) != 0,
    ensures
        normal_raw(t).norm2() > 0,
{
    let n = normal_raw(t);
    let o0 = offset_spec(t[0]);
    if n.x == 0 && n.y == 0 && n.z == 0 {
        assert(n.dot_raw(o0) == 0);
    }
    assert(n.norm2() > 0) by (nonlinear_arith)
        requires
            !(n.x == 0 && n.y == 0 && n.z == 0);
}

} // verus!
