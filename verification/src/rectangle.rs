//! Rectangles: planar quads split into two triangles along a diagonal.

use vstd::prelude::*;

use crate::vector::Axis;
use crate::vector::FP_ONE;
use crate::vector::Vec3;
use crate::vector::Vector;
use crate::triangle::Triangle;
use crate::triangle::DrawCommand;
use crate::triangle::axis_delta;
use crate::triangle::draw_spec;
use crate::triangle::opt_cmd_view;
use crate::triangle::rotate_tri_spec;
use crate::triangle::translate_tri_spec;
use crate::triangle::tri_in_world;

verus! {

/// A planar quad as two triangles sharing a diagonal.  The split is fixed
/// at construction; see [`Rectangle::new`].
#[derive(Debug, Clone, Copy, PartialEq, Eq)]
pub struct Rectangle {
    pub triangles: [Triangle; 2],
}

impl View for Rectangle {
    type V = Seq<Seq<Vec3>>;

    open spec fn view(&self) -> Seq<Seq<Vec3>> {
        seq![self.triangles[0]@, self.triangles[1]@]
    }
}

/// The two corners derived from `top_left` and `bottom_right`.  The
/// `invert` flag decides which of the two takes its `z` from which given
/// corner, so that adjoining cube faces tile without holes.
pub open spec fn derived_corners(tl: Vec3, br: Vec3, invert: bool) -> (Vec3, Vec3) {
    if invert {
        (Vec3 { x: tl.x, y: br.y, z: br.z }, Vec3 { x: br.x, y: tl.y, z: tl.z })
    } else {
        (Vec3 { x: tl.x, y: br.y, z: tl.z }, Vec3 { x: br.x, y: tl.y, z: br.z })
    }
}

/// The two triangles of a freshly built rectangle: top-left, bottom-right,
/// bottom-left; then top-left, top-right, bottom-right.
pub open spec fn rect_new_spec(tl: Vec3, br: Vec3, invert: bool) -> Seq<Seq<Vec3>> {
    let (bl, tr) = derived_corners(tl, br, invert);
    seq![seq![tl, br, bl], seq![tl, tr, br]]
}

/// Both triangles of a rectangle view within the working range.
pub open spec fn rect_in_world(r: Seq<Seq<Vec3>>) -> bool {
    r.len() == 2 && tri_in_world(r[0]) && tri_in_world(r[1])
}

/// The rotation of every triangle of `r` by the axis rotation with
/// fixed-point sine `s` and cosine `c`.
pub open spec fn rotate_rect_spec(r: Seq<Seq<Vec3>>, axis: Axis, s: int, c: int) -> Seq<
    Seq<Vec3>,
> {
    r.map_values(|t: Seq<Vec3>| rotate_tri_spec(t, axis, s, c))
}

/// The translation of every triangle of `r` by `d` along `axis`.
pub open spec fn translate_rect_spec(r: Seq<Seq<Vec3>>, axis: Axis, d: int) -> Seq<Seq<Vec3>> {
    r.map_values(|t: Seq<Vec3>| translate_tri_spec(t, axis, d))
}

/// The two triangles of a freshly built rectangle cover exactly the four
/// corners of the quad — the two given and the two derived — with no other
/// vertex; the shared diagonal pair appears in both triangles.
pub proof fn lemma_rect_covers_corners(tl: Vec3, br: Vec3, invert: bool)
    ensures
        rect_new_spec(tl, br, invert)[0].to_set().union(rect_new_spec(tl, br, invert)[1].to_set())
            == set![
            tl,
            br,
            derived_corners(tl, br, invert).0,
            derived_corners(tl, br, invert).1,
        ],
{
    let bl = derived_corners(tl, br, invert).0;
    let tr = derived_corners(tl, br, invert).1;
    let t0 = rect_new_spec(tl, br, invert)[0];
    let t1 = rect_new_spec(tl, br, invert)[1];
    assert(t0 == seq![tl, br, bl]);
    assert(t1 == seq![tl, tr, br]);
    assert forall|v: Vec3| t0.to_set().union(t1.to_set()).contains(v) implies set![
        tl,
        br,
        bl,
        tr,
    ].contains(v) by {
        if t0.to_set().contains(v) {
            let i = choose|i: int| 0 <= i < t0.len() && t0[i] == v;
            assert(v == tl || v == br || v == bl);
        } else {
            let i = choose|i: int| 0 <= i < t1.len() && t1[i] == v;
            assert(v == tl || v == tr || v == br);
        }
    }
    assert forall|v: Vec3| set![tl, br, bl, tr].contains(v) implies t0.to_set().union(
        t1.to_set(),
    ).contains(v) by {
        if v == tl || v == br || v == bl {
            assert(t0.contains(v));
            assert(t0.to_set().contains(v));
        } else {
            assert(t1.contains(v));
            assert(t1.to_set().contains(v));
        }
    }
    assert(t0.to_set().union(t1.to_set()) =~= set![tl, br, bl, tr]);
}

impl Rectangle {
    /// Builds the quad spanned by `top_left` and `bottom_right`, split along
    /// the diagonal between them into two triangles; the two remaining
    /// corners take their `z` from one given corner each, according to
    /// `invert`.
    pub fn new(top_left: Vector, bottom_right: Vector, invert: bool) -> (r: Rectangle)
        ensures
            r@ == rect_new_spec(top_left@, bottom_right@, invert),
    {
        let bottom_left: Vector;
        let top_right: Vector;
        if invert {
            bottom_left = Vector { x: top_left.x, y: bottom_right.y, z: bottom_right.z };
            top_right = Vector { x: bottom_right.x, y: top_left.y, z: top_left.z };
        } else {
            bottom_left = Vector { x: top_left.x, y: bottom_right.y, z: top_left.z };
            top_right = Vector { x: bottom_right.x, y: top_left.y, z: bottom_right.z };
        }
        let r = Rectangle {
            triangles: [
                Triangle::new([top_left, bottom_right, bottom_left]),
                Triangle::new([top_left, top_right, bottom_right]),
            ],
        };
        proof {
            assert(r@ =~~= rect_new_spec(top_left@, bottom_right@, invert));
        }
        r
    }

    /// Runs the draw pipeline on both triangles, in order.
    pub fn draw(&self) -> (r: [Option<DrawCommand>; 2])
        requires
            rect_in_world(self@),
        ensures
            opt_cmd_view(r[0]) == draw_spec(self@[0]),
            opt_cmd_view(r[1]) == draw_spec(self@[1]),
    {
        [self.triangles[0].draw(), self.triangles[1].draw()]
    }

    /// Rotates every vertex in place by the rotation about `axis` whose
    /// fixed-point sine and cosine are `sin_fp` and `cos_fp`, and returns
    /// the rotated rectangle for chaining.
    pub fn rotate(&mut self, axis: Axis, sin_fp: i64, cos_fp: i64) -> (r: Rectangle)
        requires
            -FP_ONE <= sin_fp <= FP_ONE,
            -FP_ONE <= cos_fp <= FP_ONE,
            rect_in_world(old(self)@),
        ensures
            final(self)@ == rotate_rect_spec(old(self)@, axis, sin_fp as int, cos_fp as int),
            r == *final(self),
    {
        let mut t0 = self.triangles[0];
        let mut t1 = self.triangles[1];
        t0.rotate(axis, sin_fp, cos_fp);
        t1.rotate(axis, sin_fp, cos_fp);
        self.triangles = [t0, t1];
        proof {
            assert(final(self)@ =~~= rotate_rect_spec(
                old(self)@,
                axis,
                sin_fp as int,
                cos_fp as int,
            ));
        }
        *self
    }

    /// Moves every vertex in place by the signed `distance` along `axis`,
    /// and returns the translated rectangle for chaining.
    pub fn translate(&mut self, axis: Axis, distance: i64) -> (r: Rectangle)
        requires
            old(self)@.len() == 2,
            old(self)@[0].len() == 3,
            old(self)@[1].len() == 3,
            forall|i: int, j: int|
                0 <= i < 2 && 0 <= j < 3 ==> (#[trigger] old(self)@[i][j]).plus(
                    axis_delta(axis, distance as int),
                ).fits(),
        ensures
            final(self)@ == translate_rect_spec(old(self)@, axis, distance as int),
            r == *final(self),
    {
        let mut t0 = self.triangles[0];
        let mut t1 = self.triangles[1];
        t0.translate(axis, distance);
        t1.translate(axis, distance);
        self.triangles = [t0, t1];
        proof {
            assert(final(self)@ =~~= translate_rect_spec(old(self)@, axis, distance as int));
        }
        *self
    }
}

} // verus!
