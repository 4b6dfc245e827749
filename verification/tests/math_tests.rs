use renderer3d::{Color, Mat4x4, Triangle, Vec3D, FX_ONE, RendererError};

fn fx(units: i64) -> i64 {
    units * FX_ONE
}

fn identity() -> Mat4x4 {
    let mut m = Mat4x4::new();
    m.set(0, 0, FX_ONE);
    m.set(1, 1, FX_ONE);
    m.set(2, 2, FX_ONE);
    m.set(3, 3, FX_ONE);
    m
}

#[test]
fn identity_transform_returns_vector() {
    let m = identity();
    let v = Vec3D { x: fx(3), y: fx(-2), z: fx(5) };
    let r = m.multiply_vector(&v);
    assert_eq!(r, v);
}

#[test]
fn identity_transform_keeps_fractions() {
    let m = identity();
    let v = Vec3D { x: 32768, y: -16384, z: 12345 };
    let r = m.multiply_vector(&v);
    assert_eq!(r, v);
}

#[test]
fn zero_w_returns_untouched_components() {
    // No entry in the fourth column: w comes out zero, and the
    // undivided components are returned as they are, without a crash.
    let mut m = Mat4x4::new();
    m.set(0, 0, FX_ONE);
    m.set(1, 1, FX_ONE);
    m.set(2, 2, FX_ONE);
    let v = Vec3D { x: fx(7), y: fx(-3), z: 98304 };
    let r = m.multiply_vector(&v);
    assert_eq!(r, v);
}

#[test]
fn translate_shifts_every_point_and_keeps_color() {
    let color = Color { r: 10, g: 20, b: 30 };
    let mut t = Triangle {
        p0: Vec3D { x: fx(1), y: fx(2), z: fx(3) },
        p1: Vec3D { x: fx(-4), y: fx(5), z: fx(6) },
        p2: Vec3D { x: fx(7), y: fx(8), z: fx(-9) },
        color,
    };
    t.translate(fx(10), fx(-20), fx(30));
    assert_eq!(t.p0, Vec3D { x: fx(11), y: fx(-18), z: fx(33) });
    assert_eq!(t.p1, Vec3D { x: fx(6), y: fx(-15), z: fx(36) });
    assert_eq!(t.p2, Vec3D { x: fx(17), y: fx(-12), z: fx(21) });
    assert_eq!(t.color, color);
}

#[test]
fn normal_of_unit_right_triangle_is_unit_z() {
    let t = Triangle {
        p0: Vec3D { x: 0, y: 0, z: 0 },
        p1: Vec3D { x: fx(1), y: 0, z: 0 },
        p2: Vec3D { x: 0, y: fx(1), z: 0 },
        color: Color { r: 0, g: 0, b: 0 },
    };
    let n = t.normal().unwrap();
    assert_eq!(n, Vec3D { x: 0, y: 0, z: fx(1) });
}

#[test]
fn normal_of_degenerate_triangle_is_domain_error() {
    let p = Vec3D { x: fx(2), y: fx(2), z: fx(2) };
    let t = Triangle { p0: p, p1: p, p2: p, color: Color { r: 0, g: 0, b: 0 } };
    let r = t.normal();
    assert!(matches!(r, Err(RendererError::DomainError)));
}

#[test]
fn cross_product_is_right_handed() {
    let x = Vec3D { x: fx(1), y: 0, z: 0 };
    let y = Vec3D { x: 0, y: fx(1), z: 0 };
    let z = x.cross_product(&y);
    assert_eq!(z, Vec3D { x: 0, y: 0, z: fx(1) });
    let back = y.cross_product(&x);
    assert_eq!(back, Vec3D { x: 0, y: 0, z: fx(-1) });
}

#[test]
fn dot_product_exact() {
    let a = Vec3D { x: fx(1), y: fx(2), z: fx(3) };
    let b = Vec3D { x: fx(4), y: fx(-5), z: fx(6) };
    assert_eq!(a.dot_product(&b), fx(4 - 10 + 18));
}

#[test]
fn len_of_pythagorean_vector() {
    let v = Vec3D { x: fx(3), y: fx(4), z: 0 };
    assert_eq!(v.len(), fx(5));
}

#[test]
fn vector_arithmetic_exact() {
    let mut a = Vec3D { x: fx(1), y: fx(2), z: fx(3) };
    let b = Vec3D { x: fx(10), y: fx(20), z: fx(30) };
    assert_eq!(a.add_vec(&b), Vec3D { x: fx(11), y: fx(22), z: fx(33) });
    assert_eq!(a.sub_vec(&b), Vec3D { x: fx(-9), y: fx(-18), z: fx(-27) });
    a.add_num_in_place(fx(1));
    assert_eq!(a, Vec3D { x: fx(2), y: fx(3), z: fx(4) });
    a.sub_num_in_place(fx(2));
    assert_eq!(a, Vec3D { x: fx(0), y: fx(1), z: fx(2) });
    a.scale_in_place(FX_ONE / 2);
    assert_eq!(a, Vec3D { x: 0, y: fx(1) / 2, z: fx(1) });
    let mut c = Vec3D { x: 0, y: 0, z: 0 };
    c.add_vec_in_place(&b);
    assert_eq!(c, b);
    c.sub_vec_in_place(&b);
    assert_eq!(c, Vec3D { x: 0, y: 0, z: 0 });
}

#[test]
fn matrix_set_only_touches_one_entry() {
    let mut m = Mat4x4::new();
    m.set(2, 3, 77);
    for i in 0..4usize {
        for j in 0..4usize {
            if i == 2 && j == 3 {
                assert_eq!(m.m[i][j], 77);
            } else {
                assert_eq!(m.m[i][j], 0);
            }
        }
    }
}

#[test]
fn error_messages_name_the_condition() {
    assert_eq!(RendererError::ParseError.message(), "malformed mesh record");
    assert_eq!(RendererError::DomainError.message(), "degenerate geometry");
    assert_eq!(
        RendererError::FileReadError("cube.obj".to_string()).message(),
        "unable to read file cube.obj"
    );
    assert_eq!(RendererError::InitError("boom".to_string()).message(), "boom");
    assert_eq!(RendererError::DrawError("draw".to_string()).message(), "draw");
}
