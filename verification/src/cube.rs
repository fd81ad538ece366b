//! Cubes: six rectangular faces assembled from three axis-aligned squares,
//! each mirrored by an exact half-turn to form the opposite face, then
//! translated to the requested center.

use vstd::prelude::*;

use crate::vector::Axis;
use crate::vector::FP_ONE;
use crate::vector::Vec3;
use crate::vector::Vector;
use crate::vector::WORLD_MAX;
use crate::vector::tdiv;
use crate::vector::tdiv_i64;
use crate::rotation::exact_turn_spec;
use crate::rotation::lemma_exact_turn;
use crate::rectangle::Rectangle;
use crate::rectangle::rect_in_world;
use crate::rectangle::rect_new_spec;
use crate::rectangle::rotate_rect_spec;
use crate::rectangle::translate_rect_spec;
use crate::triangle::DrawCommand;
use crate::triangle::draw_spec;
use crate::triangle::opt_cmd_view;

verus! {

/// Six faces, one rectangle each: front and back, top and bottom, side and
/// opposite side, in that order.
#[derive(Debug, Clone, Copy, PartialEq, Eq)]
pub struct Cube {
    pub faces: [Rectangle; 6],
}

impl View for Cube {
    type V = Seq<Seq<Seq<Vec3>>>;

    open spec fn view(&self) -> Seq<Seq<Seq<Vec3>>> {
        seq![
            self.faces[0]@,
            self.faces[1]@,
            self.faces[2]@,
            self.faces[3]@,
            self.faces[4]@,
            self.faces[5]@,
        ]
    }
}

/// Every face of a cube view within the working range.
pub open spec fn cube_in_world(c: Seq<Seq<Seq<Vec3>>>) -> bool {
    c.len() == 6 && forall|i: int| 0 <= i < 6 ==> rect_in_world(#[trigger] c[i])
}

/// A face moved by the whole center offset: one translation per axis, in
/// the fixed order x, y, z.
pub open spec fn place_face_spec(r: Seq<Seq<Vec3>>, center: Vec3) -> Seq<Seq<Vec3>> {
    translate_rect_spec(
        translate_rect_spec(translate_rect_spec(r, Axis::X, center.x), Axis::Y, center.y),
        Axis::Z,
        center.z,
    )
}

/// The six faces of a freshly built cube: three squares at half the size
/// along each axis, each followed by its half-turned opposite, all placed
/// at the center.
pub open spec fn cube_new_spec(center: Vec3, size: int) -> Seq<Seq<Seq<Vec3>>> {
    let h = tdiv(size, 2);
    let one = FP_ONE as int;
    let front = rect_new_spec(
        Vec3 { x: h, y: -h, z: -h },
        Vec3 { x: -h, y: h, z: -h },
        false,
    );
    let top = rect_new_spec(Vec3 { x: h, y: -h, z: h }, Vec3 { x: -h, y: -h, z: -h }, true);
    let side = rect_new_spec(Vec3 { x: h, y: h, z: -h }, Vec3 { x: h, y: -h, z: h }, false);
    seq![
        place_face_spec(front, center),
        place_face_spec(rotate_rect_spec(front, Axis::X, 0, -one), center),
        place_face_spec(top, center),
        place_face_spec(rotate_rect_spec(top, Axis::Z, 0, -one), center),
        place_face_spec(side, center),
        place_face_spec(rotate_rect_spec(side, Axis::Y, 0, -one), center),
    ]
}

impl Cube {
    /// Builds the cube of the given edge length centered at `center`.
    pub fn new(center: Vector, size: i64) -> (r: Cube)
        requires
            center@.in_world(),
            -WORLD_MAX <= size <= WORLD_MAX,
        ensures
            r@ == cube_new_spec(center@, size as int),
    {
        let h = tdiv_i64(size, 2);
        let front = Rectangle::new(
            Vector { x: h, y: -h, z: -h },
            Vector { x: -h, y: h, z: -h },
            false,
        );
        let top = Rectangle::new(
            Vector { x: h, y: -h, z: h },
            Vector { x: -h, y: -h, z: -h },
            true,
        );
        let side = Rectangle::new(
            Vector { x: h, y: h, z: -h },
            Vector { x: h, y: -h, z: h },
            false,
        );

        let mut back = front;
        back.rotate(Axis::X, 0, -FP_ONE);
        let mut bottom = top;
        bottom.rotate(Axis::Z, 0, -FP_ONE);
        let mut other_side = side;
        other_side.rotate(Axis::Y, 0, -FP_ONE);

        proof {
            let hm = if h >= 0 { h as int } else { -(h as int) };
            lemma_half_turn_small(front@, Axis::X, hm);
            lemma_half_turn_small(top@, Axis::Z, hm);
            lemma_half_turn_small(side@, Axis::Y, hm);
        }

        let faces = [
            place_face(front, center),
            place_face(back, center),
            place_face(top, center),
            place_face(bottom, center),
            place_face(side, center),
            place_face(other_side, center),
        ];
        let r = Cube { faces };
        proof {
            assert(r@ =~~= cube_new_spec(center@, size as int));
        }
        r
    }

    /// Rotates every face in place by the rotation about `axis` whose
    /// fixed-point sine and cosine are `sin_fp` and `cos_fp`.
    pub fn rotate(&mut self, axis: Axis, sin_fp: i64, cos_fp: i64)
        requires
            -FP_ONE <= sin_fp <= FP_ONE,
            -FP_ONE <= cos_fp <= FP_ONE,
            cube_in_world(old(self)@),
        ensures
            final(self)@ == old(self)@.map_values(
                |f: Seq<Seq<Vec3>>| rotate_rect_spec(f, axis, sin_fp as int, cos_fp as int),
            ),
    {
        let mut f0 = self.faces[0];
        let mut f1 = self.faces[1];
        let mut f2 = self.faces[2];
        let mut f3 = self.faces[3];
        let mut f4 = self.faces[4];
        let mut f5 = self.faces[5];
        f0.rotate(axis, sin_fp, cos_fp);
        f1.rotate(axis, sin_fp, cos_fp);
        f2.rotate(axis, sin_fp, cos_fp);
        f3.rotate(axis, sin_fp, cos_fp);
        f4.rotate(axis, sin_fp, cos_fp);
        f5.rotate(axis, sin_fp, cos_fp);
        self.faces = [f0, f1, f2, f3, f4, f5];
        proof {
            assert(final(self)@ =~~= old(self)@.map_values(
                |f: Seq<Seq<Vec3>>| rotate_rect_spec(f, axis, sin_fp as int, cos_fp as int),
            ));
        }
    }

    /// Runs the draw pipeline on all six faces, two triangles each, in
    /// face order.
    pub fn draw(&self) -> (r: Vec<Option<DrawCommand>>)
        requires
            cube_in_world(self@),
        ensures
            r@.len() == 12,
            forall|i: int, j: int|
                0 <= i < 6 && 0 <= j < 2 ==> opt_cmd_view(#[trigger] r@[2 * i + j]) == draw_spec(
                    self@[i][j],
                ),
    {
        let mut out: Vec<Option<DrawCommand>> = Vec::new();
        let d0 = self.faces[0].draw();
        let d1 = self.faces[1].draw();
        let d2 = self.faces[2].draw();
        let d3 = self.faces[3].draw();
        let d4 = self.faces[4].draw();
        let d5 = self.faces[5].draw();
        out.push(d0[0]);
        out.push(d0[1]);
        out.push(d1[0]);
        out.push(d1[1]);
        out.push(d2[0]);
        out.push(d2[1]);
        out.push(d3[0]);
        out.push(d3[1]);
        out.push(d4[0]);
        out.push(d4[1]);
        out.push(d5[0]);
        out.push(d5[1]);
        proof {
            assert forall|i: int, j: int| 0 <= i < 6 && 0 <= j < 2 implies opt_cmd_view(
                #[trigger] out@[2 * i + j],
            ) == draw_spec(self@[i][j]) by {
                assert(self@[i][j] == self.faces[i as int]@[j]);
            }
        }
        out
    }
}

/// Translates `face` by the center offset, one axis at a time.
fn place_face(face: Rectangle, center: Vector) -> (r: Rectangle)
    requires
        rect_in_world(face@),
        center@.in_world(),
    ensures
        r@ == place_face_spec(face@, center@),
{
    let mut f = face;
    f.translate(Axis::X, center.x);
    f.translate(Axis::Y, center.y);
    f.translate(Axis::Z, center.z);
    f
}

/// A half-turn of a rectangle whose vertices are within `m` only negates
/// coordinates, so the result stays within `m` and thus in the world.
proof fn lemma_half_turn_small(r: Seq<Seq<Vec3>>, axis: Axis, m: int)
    requires
        rect_in_world(r),
        0 <= m <= WORLD_MAX,
        forall|i: int, j: int| 0 <= i < 2 && 0 <= j < 3 ==> (#[trigger] r[i][j]).in_box(m),
    ensures
        rect_in_world(rotate_rect_spec(r, axis, 0, -(FP_ONE as int))),
        forall|i: int, j: int|
            0 <= i < 2 && 0 <= j < 3 ==> (#[trigger] rotate_rect_spec(
                r,
                axis,
                0,
                -(FP_ONE as int),
            )[i][j]).in_box(m),
{
    let rr = rotate_rect_spec(r, axis, 0, -(FP_ONE as int));
    assert forall|i: int, j: int| 0 <= i < 2 && 0 <= j < 3 implies (#[trigger] rr[i][j]).in_box(
        m,
    ) by {
        lemma_exact_turn(axis, 0, -(FP_ONE as int), r[i][j]);
        assert(rr[i][j] == exact_turn_spec(axis, 0, -(FP_ONE as int), r[i][j]));
    }
}

} // verus!
