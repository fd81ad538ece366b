use cubo::Axis;
use cubo::Cube;
use cubo::FP_ONE;
use cubo::Rectangle;
use cubo::Triangle;
use cubo::Vector;
use cubo::cross_product;
use cubo::dot_product;
use cubo::get_rotation_mat;
use cubo::mat_vec_mul;

fn v(x: i64, y: i64, z: i64) -> Vector {
    Vector::new(x * FP_ONE, y * FP_ONE, z * FP_ONE)
}

#[test]
fn cross_sign_convention() {
    // cross((1,0,0),(0,1,0)) must be (0,0,1) under the negated-middle-term
    // convention.
    let r = cross_product(v(1, 0, 0), v(0, 1, 0));
    assert_eq!((r.x, r.y, r.z), (0, 0, FP_ONE));
    // The middle component comes out negated relative to the plain minor.
    let r = cross_product(v(1, 0, 0), v(0, 0, 1));
    assert_eq!((r.x, r.y, r.z), (0, -FP_ONE, 0));
}

#[test]
fn dot_product_fixed_point() {
    assert_eq!(dot_product(v(1, 2, 3), v(4, 5, 6)), 32 * FP_ONE);
    assert_eq!(dot_product(v(1, 0, 0), v(0, 1, 0)), 0);
}

#[test]
fn magnitude_three_four_five() {
    assert_eq!(v(3, 4, 0).magnitude(), 5 * FP_ONE);
    assert_eq!(v(0, 0, 0).magnitude(), 0);
}

#[test]
fn normalization_magnitude_near_one() {
    // Scaling by the reciprocal of the magnitude leaves a vector of length
    // one, up to the last fixed-point digit.
    let a = v(3, 4, 0);
    let n = a.div(a.magnitude());
    let m = n.magnitude();
    assert!((FP_ONE - m).abs() <= 1, "normalized magnitude was {m}");
    let b = Vector::new(12345, -67890, 13579);
    let nb = b.div(b.magnitude());
    let mb = nb.magnitude();
    assert!((FP_ONE - mb).abs() <= 1, "normalized magnitude was {mb}");
}

#[test]
fn vector_scalar_division() {
    let r = Vector::new(10 * FP_ONE, -10 * FP_ONE, 0).div(2 * FP_ONE);
    assert_eq!((r.x, r.y, r.z), (5 * FP_ONE, -5 * FP_ONE, 0));
}

#[test]
fn rotation_matrix_layout() {
    let s = FP_ONE / 2;
    let c = FP_ONE / 3;
    let m = get_rotation_mat(Axis::Z, s, c);
    assert_eq!((m.r0.x, m.r0.y, m.r0.z), (c, -s, 0));
    assert_eq!((m.r1.x, m.r1.y, m.r1.z), (s, c, 0));
    assert_eq!((m.r2.x, m.r2.y, m.r2.z), (0, 0, FP_ONE));
    let m = get_rotation_mat(Axis::X, s, c);
    assert_eq!((m.r0.x, m.r0.y, m.r0.z), (FP_ONE, 0, 0));
    assert_eq!((m.r1.x, m.r1.y, m.r1.z), (0, c, -s));
    assert_eq!((m.r2.x, m.r2.y, m.r2.z), (0, s, c));
    let m = get_rotation_mat(Axis::Y, s, c);
    assert_eq!((m.r0.x, m.r0.y, m.r0.z), (c, 0, s));
    assert_eq!((m.r1.x, m.r1.y, m.r1.z), (0, FP_ONE, 0));
    assert_eq!((m.r2.x, m.r2.y, m.r2.z), (-s, 0, c));
}

#[test]
fn identity_rotation_keeps_vector() {
    let m = get_rotation_mat(Axis::X, 0, FP_ONE);
    let r = mat_vec_mul(m, Vector::new(123456, -789, 4242));
    assert_eq!((r.x, r.y, r.z), (123456, -789, 4242));
}

#[test]
fn quarter_turn_moves_x_to_y() {
    let m = get_rotation_mat(Axis::Z, FP_ONE, 0);
    let r = mat_vec_mul(m, v(1, 0, 0));
    assert_eq!((r.x, r.y, r.z), (0, FP_ONE, 0));
}

#[test]
fn rotation_inverse_restores_triangle() {
    // Rotating by a quarter turn and then by the opposite quarter turn
    // returns the original vertices exactly.
    let orig = Triangle::new([v(1, 2, 3), v(-2, 0, 1), v(0, -3, 2)]);
    let mut t = orig;
    t.rotate(Axis::Y, FP_ONE, 0);
    t.rotate(Axis::Y, -FP_ONE, 0);
    assert_eq!(t, orig);
}

#[test]
fn full_turn_restores_triangle() {
    // 360 degrees as two half turns, and as four quarter turns.
    let orig = Triangle::new([v(1, 2, 3), v(-2, 0, 1), v(0, -3, 2)]);
    let mut t = orig;
    t.rotate(Axis::X, 0, -FP_ONE);
    t.rotate(Axis::X, 0, -FP_ONE);
    assert_eq!(t, orig);
    let mut t = orig;
    for _ in 0..4 {
        t.rotate(Axis::Z, FP_ONE, 0);
    }
    assert_eq!(t, orig);
}

#[test]
fn translate_moves_one_axis() {
    let mut t = Triangle::new([v(0, 0, 0), v(1, 0, 0), v(0, 1, 0)]);
    t.translate(Axis::Y, 100);
    assert_eq!(t.vertices[0], Vector::new(0, 100, 0));
    assert_eq!(t.vertices[1], Vector::new(FP_ONE, 100, 0));
    assert_eq!(t.vertices[2], Vector::new(0, FP_ONE + 100, 0));
}

#[test]
fn backface_is_culled_and_reversal_flips() {
    // Normal toward +z: culled, no draw output.
    let front = Triangle::new([v(0, 0, 0), v(1, 0, 0), v(0, 1, 0)]);
    assert!(front.draw().is_none());
    // Same plane, opposite winding: visible.
    let back = Triangle::new([v(0, 0, 0), v(0, 1, 0), v(1, 0, 0)]);
    let cmd = back.draw().expect("reversed winding must be visible");
    // Face normal is exactly -z, straight at the light: full brightness.
    assert_eq!(cmd.shade, 255);
    assert_eq!((cmd.points[0].x, cmd.points[0].y), (300, 300));
    assert_eq!((cmd.points[1].x, cmd.points[1].y), (300, 240));
    assert_eq!((cmd.points[2].x, cmd.points[2].y), (359, 300));
}

#[test]
fn degenerate_triangle_is_culled() {
    let t = Triangle::new([v(0, 0, 0), v(1, 1, 1), v(2, 2, 2)]);
    assert!(t.draw().is_none());
}

#[test]
fn point_in_triangle_sign_test() {
    let verts = vec![v(0, 0, 0), v(10, 0, 0), v(0, 10, 0)];
    assert!(Triangle::point_is_inside_triangle(&verts, v(1, 1, 0)));
    assert!(!Triangle::point_is_inside_triangle(&verts, v(-1, -1, 0)));
    // Edges and corners count as inside: both orientations vanish there.
    assert!(Triangle::point_is_inside_triangle(&verts, v(0, 0, 0)));
}

#[test]
fn rectangle_corners_no_invert() {
    // Corners (1,-1,-1) -> (-1,1,1): the derived corners take their z from
    // the top-left and bottom-right respectively.
    let tl = v(1, -1, -1);
    let br = v(-1, 1, 1);
    let r = Rectangle::new(tl, br, false);
    let bl = v(1, 1, -1);
    let tr = v(-1, -1, 1);
    assert_eq!(r.triangles[0].vertices, [tl, br, bl]);
    assert_eq!(r.triangles[1].vertices, [tl, tr, br]);
}

#[test]
fn rectangle_corners_invert() {
    let tl = v(1, -1, -1);
    let br = v(-1, 1, 1);
    let r = Rectangle::new(tl, br, true);
    let bl = v(1, 1, 1);
    let tr = v(-1, -1, -1);
    assert_eq!(r.triangles[0].vertices, [tl, br, bl]);
    assert_eq!(r.triangles[1].vertices, [tl, tr, br]);
}

#[test]
fn rectangle_rotate_and_translate_fan_out() {
    let mut r = Rectangle::new(v(1, -1, 0), v(-1, 1, 0), false);
    r.translate(Axis::Z, FP_ONE);
    for t in &r.triangles {
        for vertex in &t.vertices {
            assert_eq!(vertex.z, FP_ONE);
        }
    }
    r.rotate(Axis::X, 0, -FP_ONE);
    for t in &r.triangles {
        for vertex in &t.vertices {
            assert_eq!(vertex.z, -FP_ONE);
        }
    }
}

#[test]
fn cube_faces_structure() {
    let c = Cube::new(Vector::new(0, 0, 0), 2 * FP_ONE);
    // Front square sits at z = -1; its mirrored opposite at z = +1.
    for t in &c.faces[0].triangles {
        for vertex in &t.vertices {
            assert_eq!(vertex.z, -FP_ONE);
        }
    }
    for t in &c.faces[1].triangles {
        for vertex in &t.vertices {
            assert_eq!(vertex.z, FP_ONE);
        }
    }
    // Top square at y = -1, its opposite at y = +1; side at x = +1 and -1.
    for t in &c.faces[2].triangles {
        for vertex in &t.vertices {
            assert_eq!(vertex.y, -FP_ONE);
        }
    }
    for t in &c.faces[3].triangles {
        for vertex in &t.vertices {
            assert_eq!(vertex.y, FP_ONE);
        }
    }
    for t in &c.faces[4].triangles {
        for vertex in &t.vertices {
            assert_eq!(vertex.x, FP_ONE);
        }
    }
    for t in &c.faces[5].triangles {
        for vertex in &t.vertices {
            assert_eq!(vertex.x, -FP_ONE);
        }
    }
}

#[test]
fn cube_centered_translation() {
    let c = Cube::new(v(10, 0, 0), 2 * FP_ONE);
    assert_eq!(c.faces[0].triangles[0].vertices[0], v(11, -1, -1));
}

#[test]
fn cube_draw_emits_twelve_commands() {
    let c = Cube::new(Vector::new(0, 0, 0), 2 * FP_ONE);
    let cmds = c.draw();
    assert_eq!(cmds.len(), 12);
    assert!(cmds.iter().any(|c| c.is_some()));
    assert!(cmds.iter().any(|c| c.is_none()));
}
