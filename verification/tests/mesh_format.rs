use cubo::FP_ONE;
use cubo::Mesh;
use cubo::MeshError;
use cubo::Vector;

#[test]
fn loads_one_triangle() {
    let text = "v 0 0 0\nv 1 0 0\nv 0 1 0\nf 1 2 3\n";
    let m = Mesh::load(text.as_bytes()).expect("well-formed mesh");
    assert_eq!(m.vertices.len(), 3);
    assert_eq!(m.triangles.len(), 1);
    assert_eq!(m.vertices[0], Vector::new(0, 0, 0));
    assert_eq!(m.vertices[1], Vector::new(FP_ONE, 0, 0));
    assert_eq!(m.vertices[2], Vector::new(0, FP_ONE, 0));
    let t = &m.triangles[0];
    assert_eq!(t.vertices[0], Vector::new(0, 0, 0));
    assert_eq!(t.vertices[1], Vector::new(FP_ONE, 0, 0));
    assert_eq!(t.vertices[2], Vector::new(0, FP_ONE, 0));
}

#[test]
fn ignores_unknown_lines() {
    let text = "# comment\nvn 0 0 0\n\ng group\n";
    let m = Mesh::load(text.as_bytes()).expect("unknown lines are skipped");
    assert_eq!(m.vertices.len(), 0);
    assert_eq!(m.triangles.len(), 0);
}

#[test]
fn parses_signs_and_fractions() {
    let text = "v 1.5 -0.25 +2\n";
    let m = Mesh::load(text.as_bytes()).expect("decimals parse");
    assert_eq!(m.vertices[0], Vector::new(98304, -16384, 2 * FP_ONE));
}

#[test]
fn fraction_truncates_toward_zero() {
    // 0.00001 is below the smallest representable step.
    let m = Mesh::load("v 0.00001 -0.00001 0\n".as_bytes()).expect("tiny decimals parse");
    assert_eq!(m.vertices[0], Vector::new(0, 0, 0));
}

#[test]
fn extra_fields_parse_but_are_ignored() {
    let m = Mesh::load("v 1 2 3 4\n".as_bytes()).expect("extra numeric field is allowed");
    assert_eq!(m.vertices[0], Vector::new(FP_ONE, 2 * FP_ONE, 3 * FP_ONE));
    let r = Mesh::load("v 1 2 3 x\n".as_bytes());
    assert_eq!(r.err(), Some(MeshError::BadNumber));
}

#[test]
fn quad_face_uses_first_three_indices() {
    let text = "v 0 0 0\nv 1 0 0\nv 0 1 0\nv 1 1 0\nf 1 2 3 4\n";
    let m = Mesh::load(text.as_bytes()).expect("quad face takes its first triangle");
    assert_eq!(m.triangles.len(), 1);
    assert_eq!(m.triangles[0].vertices[2], Vector::new(0, FP_ONE, 0));
}

#[test]
fn malformed_number_fails() {
    assert_eq!(Mesh::load("v a 0 0\n".as_bytes()).err(), Some(MeshError::BadNumber));
    assert_eq!(Mesh::load("v 1e3 0 0\n".as_bytes()).err(), Some(MeshError::BadNumber));
    assert_eq!(Mesh::load("v 1..2 0 0\n".as_bytes()).err(), Some(MeshError::BadNumber));
    assert_eq!(Mesh::load("f x 1 1\n".as_bytes()).err(), Some(MeshError::BadNumber));
    // Double separators make an empty field, which is no number.
    assert_eq!(Mesh::load("v 1  2 3\n".as_bytes()).err(), Some(MeshError::BadNumber));
    // A carriage return sticks to the last field.
    assert_eq!(Mesh::load("v 1 2 3\r\n".as_bytes()).err(), Some(MeshError::BadNumber));
}

#[test]
fn empty_input_is_an_empty_mesh() {
    let m = Mesh::load(b"").expect("empty text loads");
    assert_eq!(m.vertices.len(), 0);
    assert_eq!(m.triangles.len(), 0);
}

#[test]
fn out_of_range_coordinate_fails() {
    assert_eq!(Mesh::load("v 999999 0 0\n".as_bytes()).err(), Some(MeshError::BadNumber));
    // The working range ends a little above 7629 units.
    assert!(Mesh::load("v 7628 0 0\n".as_bytes()).is_ok());
    assert_eq!(Mesh::load("v 7630 0 0\n".as_bytes()).err(), Some(MeshError::BadNumber));
}

#[test]
fn short_lines_fail() {
    assert_eq!(Mesh::load("v 1 2\n".as_bytes()).err(), Some(MeshError::ShortLine));
    assert_eq!(
        Mesh::load("v 0 0 0\nv 1 0 0\nv 0 1 0\nf 1 2\n".as_bytes()).err(),
        Some(MeshError::ShortLine)
    );
}

#[test]
fn dangling_index_fails() {
    assert_eq!(
        Mesh::load("v 0 0 0\nf 1 1 2\n".as_bytes()).err(),
        Some(MeshError::BadIndex)
    );
    assert_eq!(
        Mesh::load("v 0 0 0\nf 0 1 1\n".as_bytes()).err(),
        Some(MeshError::BadIndex)
    );
}

#[test]
fn triangles_copy_current_vertices() {
    // Faces dereference the vertex list as it stands when the face line is
    // read; the list keeps growing afterwards.
    let text = "v 0 0 0\nv 1 0 0\nv 0 1 0\nf 1 2 3\nv 5 5 5\nf 2 3 4\n";
    let m = Mesh::load(text.as_bytes()).expect("two faces");
    assert_eq!(m.vertices.len(), 4);
    assert_eq!(m.triangles.len(), 2);
    assert_eq!(m.triangles[1].vertices[2], Vector::new(5 * FP_ONE, 5 * FP_ONE, 5 * FP_ONE));
}
