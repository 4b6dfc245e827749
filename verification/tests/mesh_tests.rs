use renderer3d::{Mesh, Vec3D, FX_ONE, RendererError};

#[test]
fn parse_round_trip_single_triangle() {
    let src = b"v 0 0 0\nv 1 0 0\nv 0 1 0\nf 1 2 3\n";
    let mesh = Mesh::from_obj_source(src).unwrap();
    assert_eq!(mesh.tris.len(), 1);
    let t = &mesh.tris[0];
    assert_eq!(t.p0, Vec3D { x: 0, y: 0, z: 0 });
    assert_eq!(t.p1, Vec3D { x: FX_ONE, y: 0, z: 0 });
    assert_eq!(t.p2, Vec3D { x: 0, y: FX_ONE, z: 0 });
    assert_eq!((t.color.r, t.color.g, t.color.b), (0, 0, 0));
}

#[test]
fn slash_indexed_face_parses_to_identical_triangle() {
    let bare = Mesh::from_obj_source(b"v 0 0 0\nv 1 0 0\nv 0 1 0\nf 1 2 3\n").unwrap();
    let slashed = Mesh::from_obj_source(b"v 0 0 0\nv 1 0 0\nv 0 1 0\nf 1/1/1 2/2/2 3/3/3\n").unwrap();
    assert_eq!(bare.tris.len(), 1);
    assert_eq!(slashed.tris.len(), 1);
    assert_eq!(bare.tris[0], slashed.tris[0]);
}

#[test]
fn double_slash_groups_parse_too() {
    let a = Mesh::from_obj_source(b"v 0 0 0\nv 1 0 0\nv 0 1 0\nf 1//1 2//2 3//3\n").unwrap();
    let b = Mesh::from_obj_source(b"v 0 0 0\nv 1 0 0\nv 0 1 0\nf 1 2 3\n").unwrap();
    assert_eq!(a.tris[0], b.tris[0]);
}

#[test]
fn decimal_and_negative_coordinates() {
    let mesh = Mesh::from_obj_source(b"v 0.5 -0.25 1.5\nv 1 0 0\nv 0 1 0\nf 1 2 3\n").unwrap();
    let t = &mesh.tris[0];
    assert_eq!(t.p0, Vec3D { x: 32768, y: -16384, z: 98304 });
}

#[test]
fn normals_are_parsed_and_ignored() {
    let mesh = Mesh::from_obj_source(b"v 0 0 0\nv 1 0 0\nv 0 1 0\nvn 0 0 1\nf 1 2 3\n").unwrap();
    assert_eq!(mesh.tris.len(), 1);
}

#[test]
fn unknown_lines_are_ignored() {
    let mesh =
        Mesh::from_obj_source(b"# comment\no cube\nv 0 0 0\nv 1 0 0\nv 0 1 0\ns off\nf 1 2 3\n")
            .unwrap();
    assert_eq!(mesh.tris.len(), 1);
}

#[test]
fn empty_source_gives_empty_mesh() {
    let mesh = Mesh::from_obj_source(b"").unwrap();
    assert_eq!(mesh.tris.len(), 0);
}

#[test]
fn vertices_without_faces_give_empty_mesh() {
    let mesh = Mesh::from_obj_source(b"v 0 0 0\nv 1 0 0\n").unwrap();
    assert_eq!(mesh.tris.len(), 0);
}

#[test]
fn malformed_number_is_parse_error() {
    let r = Mesh::from_obj_source(b"v a b c\n");
    assert!(matches!(r, Err(RendererError::ParseError)));
}

#[test]
fn missing_vertex_field_is_parse_error() {
    let r = Mesh::from_obj_source(b"v 1 2\n");
    assert!(matches!(r, Err(RendererError::ParseError)));
}

#[test]
fn out_of_range_index_is_parse_error() {
    let r = Mesh::from_obj_source(b"v 0 0 0\nf 1 2 3\n");
    assert!(matches!(r, Err(RendererError::ParseError)));
}

#[test]
fn zero_index_is_parse_error() {
    let r = Mesh::from_obj_source(b"v 0 0 0\nv 1 0 0\nv 0 1 0\nf 0 1 2\n");
    assert!(matches!(r, Err(RendererError::ParseError)));
}

#[test]
fn face_with_two_indices_is_parse_error() {
    let r = Mesh::from_obj_source(b"v 0 0 0\nv 1 0 0\nv 0 1 0\nf 1 2\n");
    assert!(matches!(r, Err(RendererError::ParseError)));
}

#[test]
fn face_with_four_indices_is_parse_error() {
    let r = Mesh::from_obj_source(b"v 0 0 0\nv 1 0 0\nv 0 1 0\nf 1 2 3 1\n");
    assert!(matches!(r, Err(RendererError::ParseError)));
}

#[test]
fn double_dot_number_is_parse_error() {
    let r = Mesh::from_obj_source(b"v 1.2.3 0 0\n");
    assert!(matches!(r, Err(RendererError::ParseError)));
}

#[test]
fn crlf_line_endings_parse() {
    let mesh = Mesh::from_obj_source(b"v 0 0 0\r\nv 1 0 0\r\nv 0 1 0\r\nf 1 2 3\r\n").unwrap();
    assert_eq!(mesh.tris.len(), 1);
    assert_eq!(mesh.tris[0].p1, Vec3D { x: FX_ONE, y: 0, z: 0 });
}
