use renderer3d::{
    flat_shade, mean_depth, projection_matrix, render_frame, rotation_x_matrix, rotation_z_matrix,
    sort_by_depth, Color, Mat4x4, Mesh, Triangle, Vec3D, FX_ONE,
};

fn fx(units: i64) -> i64 {
    units * FX_ONE
}

fn identity() -> Mat4x4 {
    let mut m = Mat4x4::new();
    m.set(0, 0, FX_ONE);
    m.set(1, 1, FX_ONE);
    m.set(2, 2, FX_ONE);
    m.set(3, 3, FX_ONE);
    m
}

fn black() -> Color {
    Color { r: 0, g: 0, b: 0 }
}

fn flat_triangle_at(depth_units: i64) -> Triangle {
    // Faces the camera at the origin: normal along -z.
    Triangle {
        p0: Vec3D { x: 0, y: 0, z: fx(depth_units) },
        p1: Vec3D { x: 0, y: fx(1), z: fx(depth_units) },
        p2: Vec3D { x: fx(1), y: 0, z: fx(depth_units) },
        color: black(),
    }
}

#[test]
fn backface_is_culled_and_frontface_survives() {
    let away = Triangle {
        // Normal along +z, all points at z = 5: faces away from a
        // camera at the origin looking down +z.
        p0: Vec3D { x: 0, y: 0, z: fx(5) },
        p1: Vec3D { x: fx(1), y: 0, z: fx(5) },
        p2: Vec3D { x: 0, y: fx(1), z: fx(5) },
        color: black(),
    };
    let toward = Triangle { p0: away.p0, p1: away.p2, p2: away.p1, color: black() };
    let rz = rotation_z_matrix(FX_ONE, 0);
    let rx = rotation_x_matrix(FX_ONE, 0);
    let proj = identity();
    let cam = Vec3D { x: 0, y: 0, z: 0 };

    let culled = render_frame(&Mesh { tris: vec![away] }, &rz, &rx, &proj, 0, &cam, 2, 2).unwrap();
    assert_eq!(culled.len(), 0);

    let drawn = render_frame(&Mesh { tris: vec![toward] }, &rz, &rx, &proj, 0, &cam, 2, 2).unwrap();
    assert_eq!(drawn.len(), 1);
    // The surviving face looks straight at the light: full white.
    assert_eq!(drawn[0].color, Color { r: 255, g: 255, b: 255 });
}

#[test]
fn depth_sort_is_farthest_first() {
    let mut tris = vec![flat_triangle_at(5), flat_triangle_at(1), flat_triangle_at(3)];
    sort_by_depth(&mut tris);
    assert_eq!(mean_depth(&tris[0]), fx(5));
    assert_eq!(mean_depth(&tris[1]), fx(3));
    assert_eq!(mean_depth(&tris[2]), fx(1));
}

#[test]
fn dispatch_order_is_by_descending_depth() {
    let mesh = Mesh { tris: vec![flat_triangle_at(5), flat_triangle_at(1), flat_triangle_at(3)] };
    let rz = rotation_z_matrix(FX_ONE, 0);
    let rx = rotation_x_matrix(FX_ONE, 0);
    let proj = identity();
    let cam = Vec3D { x: 0, y: 0, z: 0 };
    let out = render_frame(&mesh, &rz, &rx, &proj, 0, &cam, 2, 2).unwrap();
    assert_eq!(out.len(), 3);
    // With the identity projection the depth is untouched.
    assert_eq!(mean_depth(&out[0]), fx(5));
    assert_eq!(mean_depth(&out[1]), fx(3));
    assert_eq!(mean_depth(&out[2]), fx(1));
}

#[test]
fn mean_depth_truncates_toward_zero() {
    let t = Triangle {
        p0: Vec3D { x: 0, y: 0, z: fx(1) },
        p1: Vec3D { x: 0, y: 0, z: fx(2) },
        p2: Vec3D { x: 0, y: 0, z: fx(4) },
        color: black(),
    };
    assert_eq!(mean_depth(&t), fx(7) / 3);
}

#[test]
fn shade_clamps_to_byte_range() {
    // Looking straight at the light: dot product one, clamped to 255.
    let facing = Vec3D { x: 0, y: 0, z: -FX_ONE };
    assert_eq!(flat_shade(&facing), Color { r: 255, g: 255, b: 255 });
    // Facing away from the light: negative dot product, clamped to 0.
    let away = Vec3D { x: 0, y: 0, z: FX_ONE };
    assert_eq!(flat_shade(&away), Color { r: 0, g: 0, b: 0 });
    // Halfway: 0.5 * 256 = 128.
    let tilted = Vec3D { x: 0, y: 0, z: -FX_ONE / 2 };
    assert_eq!(flat_shade(&tilted), Color { r: 128, g: 128, b: 128 });
}

#[test]
fn degenerate_triangle_aborts_the_frame() {
    let p = Vec3D { x: fx(1), y: fx(1), z: fx(1) };
    let mesh = Mesh { tris: vec![Triangle { p0: p, p1: p, p2: p, color: black() }] };
    let rz = rotation_z_matrix(FX_ONE, 0);
    let rx = rotation_x_matrix(FX_ONE, 0);
    let proj = identity();
    let cam = Vec3D { x: 0, y: 0, z: 0 };
    let r = render_frame(&mesh, &rz, &rx, &proj, 0, &cam, 2, 2);
    assert!(matches!(r, Err(renderer3d::RendererError::DomainError)));
}

const CUBE_OBJ: &[u8] = b"v 0.25 0.25 0\n\
v 0.25 1.25 0\n\
v 1.25 1.25 0\n\
v 1.25 0.25 0\n\
v 0.25 0.25 1\n\
v 0.25 1.25 1\n\
v 1.25 1.25 1\n\
v 1.25 0.25 1\n\
f 1 2 3\n\
f 1 3 4\n\
f 4 3 7\n\
f 4 7 8\n\
f 8 7 6\n\
f 8 6 5\n\
f 5 6 2\n\
f 5 2 1\n\
f 2 6 7\n\
f 2 7 3\n\
f 8 5 1\n\
f 8 1 4\n";

#[test]
fn end_to_end_cube_has_six_visible_triangles() {
    let mesh = Mesh::from_obj_source(CUBE_OBJ).unwrap();
    assert_eq!(mesh.tris.len(), 12);

    // Rotation angle 0: cosine one, sine zero on both axes.
    let rz = rotation_z_matrix(FX_ONE, 0);
    let rx = rotation_x_matrix(FX_ONE, 0);
    // The projection of the original design: fov 90 degrees (so the
    // reciprocal tangent of half the fov is one), aspect 600/800,
    // near 0.1, far 1000.
    let proj = projection_matrix(49152, FX_ONE, 6554, fx(1000));
    let cam = Vec3D { x: 0, y: 0, z: 0 };

    let out = render_frame(&mesh, &rz, &rx, &proj, fx(3), &cam, 800, 600).unwrap();
    // The three near faces survive with two triangles each; the three
    // far faces are culled.
    assert_eq!(out.len(), 6);
    for w in out.windows(2) {
        assert!(mean_depth(&w[0]) >= mean_depth(&w[1]));
    }
}
