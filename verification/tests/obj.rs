use cgl::obj::{Error, Obj};
use cgl::{normalize_indices, parse_vertex, Model, Vec2, Vec3, VertexIndex};

#[test]
fn test_normalize_indices() {
    let simple_index = VertexIndex { vertex: 1, normal: None, texture: None };
    let index = normalize_indices(simple_index, 8, 2, 1);
    assert_eq!(
        index.expect("simple_index"),
        VertexIndex { vertex: 0, normal: None, texture: None }
    );

    let complex_index = VertexIndex { vertex: 3, normal: Some(8), texture: Some(5) };
    let index = normalize_indices(complex_index, 1, 2, 3);
    assert_eq!(
        index.expect("complex_index"),
        VertexIndex { vertex: 2, normal: Some(7), texture: Some(4) }
    );

    let relative_index = VertexIndex { vertex: -1, normal: Some(-3), texture: Some(-2) };
    let index = normalize_indices(relative_index, 5, 5, 5);
    assert_eq!(
        index.expect("relative_index"),
        VertexIndex { vertex: 4, normal: Some(2), texture: Some(3) }
    );

    let wrong_relative = VertexIndex { vertex: -3, normal: None, texture: None };
    let index = normalize_indices(wrong_relative, 1, 1, 2);
    assert!(index.is_err(), "The vertex is an invalid relative value");

    let wrong_relative2 = VertexIndex { vertex: 1, normal: Some(-1), texture: None };
    let index = normalize_indices(wrong_relative2, 0, 0, 0);
    assert!(index.is_err(), "The normal is an invalid relative value");

    let zero_index = VertexIndex { vertex: 1, normal: None, texture: Some(0) };
    let index = normalize_indices(zero_index, 0, 0, 0);
    assert!(index.is_err(), "A zero index is invalid");
}

#[test]
fn read_vertex() {
    let model = Obj::from_str("v 0.5 -0.25 1.0\nv 1.0 1.0 1.0").unwrap();
    assert_eq!(
        model.vertices,
        vec![Vec3(32768, -16384, 65536), Vec3(65536, 65536, 65536)]
    );
    assert!(model.normals.is_empty());
    assert!(model.texture.is_empty());
    assert!(model.triangles.is_empty());
}

#[test]
fn parse_vertex_forms() {
    assert_eq!(
        parse_vertex(b"7").unwrap(),
        VertexIndex { vertex: 7, texture: None, normal: None }
    );
    assert_eq!(
        parse_vertex(b"7/3").unwrap(),
        VertexIndex { vertex: 7, texture: Some(3), normal: None }
    );
    assert_eq!(
        parse_vertex(b"7//2").unwrap(),
        VertexIndex { vertex: 7, texture: None, normal: Some(2) }
    );
    assert_eq!(
        parse_vertex(b"7/3/2").unwrap(),
        VertexIndex { vertex: 7, texture: Some(3), normal: Some(2) }
    );
    assert!(parse_vertex(b"x/3").is_err());
}

#[test]
fn obj_error_lines() {
    assert_eq!(Obj::from_str("v 1 2").unwrap_err(), Error::ObjParse(1));
    assert_eq!(Obj::from_str("\nv a b c").unwrap_err(), Error::FloatParse(2));
    assert_eq!(Obj::from_str("q 1").unwrap_err(), Error::ObjParse(1));
    assert!(Obj::from_str("# comment\ns 1\ng grp\nvp 1 2").is_ok());
}

#[test]
fn mesh_rejects_bad_index() {
    let verts = vec![Vec3(0, 0, 0), Vec3(1, 0, 0)];
    assert!(Model::new(verts.clone(), vec![(0, 1, 2)]).is_none());
    assert!(Model::new(verts, vec![(0, 1, 1)]).is_some());

    let obj = Obj::from_str("v 0 0 0\nv 1 0 0\nv 0 1 0\nf 1 2 4").unwrap();
    assert!(obj.model().is_err());
    let good = Obj::from_str("v 0 0 0\nv 1 0 0\nv 0 1 0\nf 1 2 3").unwrap();
    let m = good.model().unwrap();
    assert_eq!(m.vertices.len(), 3);
    assert_eq!(m.triangles, vec![(0, 1, 2)]);
}

#[test]
fn model_deduplicates_corners() {
    let obj = Obj::from_str("v 0 0 0\nv 1 0 0\nv 0 1 0\nv 1 1 0\nf 1 2 3\nf 2 4 3").unwrap();
    let m = obj.model().unwrap();
    assert_eq!(m.vertices.len(), 4);
    assert_eq!(m.triangles.len(), 2);
}

#[test]
fn face_errors_name_their_line() {
    // a face with a zero index errors on its own (second) line
    assert_eq!(
        Obj::from_str("v 0 0 0\nf 1 0 1").unwrap_err(),
        Error::ObjParse(2)
    );
    // a face corner that is not an integer is an integer error
    assert_eq!(
        Obj::from_str("v 0 0 0\nf 1 x 1").unwrap_err(),
        Error::IntParse(2)
    );
}
