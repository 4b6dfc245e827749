use vstd::prelude::*;
use crate::fixed::{FX_ONE, FX_MAX, fx_div, fx_mul, fx_div_s, fx_mul_s, i64_ok, fx_ok, tdiv, mul_wide, lemma_mul_bound};
use crate::vector::{Vec3D, Vec3S, vec_ok};

verus! {

/// A 4x4 fixed-point matrix, row-major.  Entries default to zero;
/// builders set only the entries a given transform needs.
#[derive(Debug, Clone, Copy)]
pub struct Mat4x4 {
    pub m: [[i64; 4]; 4],
}

/// Every entry is within the fixed-point working range.
pub open spec fn mat_ok(m: Mat4x4) -> bool {
    forall|i: int, j: int| 0 <= i < 4 && 0 <= j < 4 ==> fx_ok((#[trigger] m.m[i][j]) as int)
}

/// The `x` component of the homogeneous product, before the divide: the
/// row vector `(x, y, z, 1)` times column 0 of the matrix.
pub open spec fn tf_px(m: Mat4x4, v: Vec3S) -> int {
    tdiv(v.x * m.m[0][0] + v.y * m.m[1][0] + v.z * m.m[2][0] + m.m[3][0] * FX_ONE, FX_ONE as int)
}

/// The `y` component before the divide: `(x, y, z, 1)` times column 1.
pub open spec fn tf_py(m: Mat4x4, v: Vec3S) -> int {
    tdiv(v.x * m.m[0][1] + v.y * m.m[1][1] + v.z * m.m[2][1] + m.m[3][1] * FX_ONE, FX_ONE as int)
}

/// The `z` component before the divide: `(x, y, z, 1)` times column 2.
pub open spec fn tf_pz(m: Mat4x4, v: Vec3S) -> int {
    tdiv(v.x * m.m[0][2] + v.y * m.m[1][2] + v.z * m.m[2][2] + m.m[3][2] * FX_ONE, FX_ONE as int)
}

/// The homogeneous `w` component: `(x, y, z, 1)` times column 3.
pub open spec fn tf_w(m: Mat4x4, v: Vec3S) -> int {
    tdiv(v.x * m.m[0][3] + v.y * m.m[1][3] + v.z * m.m[2][3] + m.m[3][3] * FX_ONE, FX_ONE as int)
}

/// The homogeneous transform of `v` by `m`.  When `w` is zero the
/// undivided components are returned as they are (a deliberate
/// edge-case policy); otherwise each component is divided by `w` with
/// truncation (the projective divide).
pub open spec fn transform_s(m: Mat4x4, v: Vec3S) -> Vec3S {
    let w = tf_w(m, v);
    if w == 0 {
        Vec3S { x: tf_px(m, v), y: tf_py(m, v), z: tf_pz(m, v) }
    } else {
        Vec3S {
            x: fx_div_s(tf_px(m, v), w),
            y: fx_div_s(tf_py(m, v), w),
            z: fx_div_s(tf_pz(m, v), w),
        }
    }
}

/// The machine-limit conditions under which `multiply_vector` can
/// represent its exact result: the four homogeneous components fit the
/// working range, and so do the divided components when a divide
/// happens.
pub open spec fn mv_fits(m: Mat4x4, v: Vec3S) -> bool {
    &&& fx_ok(tf_px(m, v))
    &&& fx_ok(tf_py(m, v))
    &&& fx_ok(tf_pz(m, v))
    &&& fx_ok(tf_w(m, v))
    &&& (tf_w(m, v) != 0 ==> {
        &&& fx_ok(fx_div_s(tf_px(m, v), tf_w(m, v)))
        &&& fx_ok(fx_div_s(tf_py(m, v), tf_w(m, v)))
        &&& fx_ok(fx_div_s(tf_pz(m, v), tf_w(m, v)))
    })
}

/// `m` is the homogeneous identity: the scale on the diagonal, zero
/// elsewhere.
pub open spec fn is_identity(m: Mat4x4) -> bool {
    forall|i: int, j: int| 0 <= i < 4 && 0 <= j < 4
        ==> #[trigger] m.m[i][j] == if i == j { FX_ONE as int } else { 0 }
}

impl Mat4x4 {
    /// The all-zero matrix.
    pub fn new() -> (r: Mat4x4)
        ensures
            forall|i: int, j: int| 0 <= i < 4 && 0 <= j < 4 ==> #[trigger] r.m[i][j] == 0,
    {
        Mat4x4 { m: [[0i64; 4]; 4] }
    }

    /// Sets one entry, leaving the others unchanged.
    pub fn set(&mut self, r: usize, c: usize, value: i64)
        requires
            r <= 3,
            c <= 3,
        ensures
            final(self).m[r as int][c as int] == value,
            forall|i: int, j: int| 0 <= i < 4 && 0 <= j < 4 && !(i == r && j == c)
                ==> #[trigger] final(self).m[i][j] == old(self).m[i][j],
    {
        let mut row: [i64; 4] = self.m[r];
        row[c] = value;
        self.m[r] = row;
    }

    /// Multiplies the homogeneous row vector `(x, y, z, 1)` by the
    /// matrix and performs the projective divide unless `w` is zero.
    pub fn multiply_vector(&self, input: &Vec3D) -> (r: Vec3D)
        requires
            mat_ok(*self),
            vec_ok(input@),
            mv_fits(*self, input@),
        ensures
            r@ == transform_s(*self, input@),
            vec_ok(r@),
    {
        proof {
            lemma_mul_bound(input@.x, self.m[0][0] as int, FX_MAX as int, FX_MAX as int);
            lemma_mul_bound(input@.y, self.m[1][0] as int, FX_MAX as int, FX_MAX as int);
            lemma_mul_bound(input@.z, self.m[2][0] as int, FX_MAX as int, FX_MAX as int);
            lemma_mul_bound(self.m[3][0] as int, FX_ONE as int, FX_MAX as int, FX_ONE as int);
            lemma_mul_bound(input@.x, self.m[0][1] as int, FX_MAX as int, FX_MAX as int);
            lemma_mul_bound(input@.y, self.m[1][1] as int, FX_MAX as int, FX_MAX as int);
            lemma_mul_bound(input@.z, self.m[2][1] as int, FX_MAX as int, FX_MAX as int);
            lemma_mul_bound(self.m[3][1] as int, FX_ONE as int, FX_MAX as int, FX_ONE as int);
            lemma_mul_bound(input@.x, self.m[0][2] as int, FX_MAX as int, FX_MAX as int);
            lemma_mul_bound(input@.y, self.m[1][2] as int, FX_MAX as int, FX_MAX as int);
            lemma_mul_bound(input@.z, self.m[2][2] as int, FX_MAX as int, FX_MAX as int);
            lemma_mul_bound(self.m[3][2] as int, FX_ONE as int, FX_MAX as int, FX_ONE as int);
            lemma_mul_bound(input@.x, self.m[0][3] as int, FX_MAX as int, FX_MAX as int);
            lemma_mul_bound(input@.y, self.m[1][3] as int, FX_MAX as int, FX_MAX as int);
            lemma_mul_bound(input@.z, self.m[2][3] as int, FX_MAX as int, FX_MAX as int);
            lemma_mul_bound(self.m[3][3] as int, FX_ONE as int, FX_MAX as int, FX_ONE as int);
        }
        let px: i128 = (mul_wide(input.x, self.m[0][0]) + mul_wide(input.y, self.m[1][0])
            + mul_wide(input.z, self.m[2][0]) + mul_wide(self.m[3][0], FX_ONE))
            / (FX_ONE as i128);
        let py: i128 = (mul_wide(input.x, self.m[0][1]) + mul_wide(input.y, self.m[1][1])
            + mul_wide(input.z, self.m[2][1]) + mul_wide(self.m[3][1], FX_ONE))
            / (FX_ONE as i128);
        let pz: i128 = (mul_wide(input.x, self.m[0][2]) + mul_wide(input.y, self.m[1][2])
            + mul_wide(input.z, self.m[2][2]) + mul_wide(self.m[3][2], FX_ONE))
            / (FX_ONE as i128);
        let w: i128 = (mul_wide(input.x, self.m[0][3]) + mul_wide(input.y, self.m[1][3])
            + mul_wide(input.z, self.m[2][3]) + mul_wide(self.m[3][3], FX_ONE))
            / (FX_ONE as i128);
        let rx: i64 = px as i64;
        let ry: i64 = py as i64;
        let rz: i64 = pz as i64;
        let rw: i64 = w as i64;
        if rw == 0 {
            Vec3D { x: rx, y: ry, z: rz }
        } else {
            Vec3D { x: fx_div(rx, rw), y: fx_div(ry, rw), z: fx_div(rz, rw) }
        }
    }
}

/// Entry `(i, j)` of the rotation about the `z` axis with the given
/// fixed-point cosine and sine.
pub open spec fn rot_z_entry(c: int, s: int, i: int, j: int) -> int {
    if i == 0 && j == 0 { c }
    else if i == 0 && j == 1 { s }
    else if i == 1 && j == 0 { -s }
    else if i == 1 && j == 1 { c }
    else if i == 2 && j == 2 { FX_ONE as int }
    else if i == 3 && j == 3 { FX_ONE as int }
    else { 0 }
}

/// Entry `(i, j)` of the rotation about the `x` axis with the given
/// fixed-point cosine and sine.
pub open spec fn rot_x_entry(c: int, s: int, i: int, j: int) -> int {
    if i == 0 && j == 0 { FX_ONE as int }
    else if i == 1 && j == 1 { c }
    else if i == 1 && j == 2 { s }
    else if i == 2 && j == 1 { -s }
    else if i == 2 && j == 2 { c }
    else if i == 3 && j == 3 { FX_ONE as int }
    else { 0 }
}

/// Builds the rotation matrix about the `z` axis from a fixed-point
/// cosine and sine pair.
pub fn rotation_z_matrix(cos_t: i64, sin_t: i64) -> (r: Mat4x4)
    requires
        fx_ok(cos_t as int),
        fx_ok(sin_t as int),
    ensures
        forall|i: int, j: int| 0 <= i < 4 && 0 <= j < 4
            ==> #[trigger] r.m[i][j] == rot_z_entry(cos_t as int, sin_t as int, i, j),
        mat_ok(r),
{
    let mut r = Mat4x4::new();
    r.set(0, 0, cos_t);
    r.set(0, 1, sin_t);
    r.set(1, 0, -sin_t);
    r.set(1, 1, cos_t);
    r.set(2, 2, FX_ONE);
    r.set(3, 3, FX_ONE);
    r
}

/// Builds the rotation matrix about the `x` axis from a fixed-point
/// cosine and sine pair.
pub fn rotation_x_matrix(cos_t: i64, sin_t: i64) -> (r: Mat4x4)
    requires
        fx_ok(cos_t as int),
        fx_ok(sin_t as int),
    ensures
        forall|i: int, j: int| 0 <= i < 4 && 0 <= j < 4
            ==> #[trigger] r.m[i][j] == rot_x_entry(cos_t as int, sin_t as int, i, j),
        mat_ok(r),
{
    let mut r = Mat4x4::new();
    r.set(0, 0, FX_ONE);
    r.set(1, 1, cos_t);
    r.set(1, 2, sin_t);
    r.set(2, 1, -sin_t);
    r.set(2, 2, cos_t);
    r.set(3, 3, FX_ONE);
    r
}

/// Entry `(i, j)` of the perspective projection built from the aspect
/// ratio, the reciprocal of the tangent of half the field of view, and
/// the near and far plane distances (all fixed-point).
pub open spec fn proj_entry(aspect: int, itf: int, znear: int, zfar: int, i: int, j: int) -> int {
    let zscale = fx_div_s(zfar, zfar - znear);
    if i == 0 && j == 0 { fx_mul_s(aspect, itf) }
    else if i == 1 && j == 1 { itf }
    else if i == 2 && j == 2 { zscale }
    else if i == 2 && j == 3 { FX_ONE as int }
    else if i == 3 && j == 2 { -fx_mul_s(znear, zscale) }
    else { 0 }
}

/// Builds the perspective projection matrix.
pub fn projection_matrix(aspect_ratio: i64, inv_tan_half_fov: i64, znear: i64, zfar: i64) -> (r: Mat4x4)
    requires
        zfar != znear,
        i64_ok(zfar as int - znear as int),
        fx_ok(fx_mul_s(aspect_ratio as int, inv_tan_half_fov as int)),
        fx_ok(inv_tan_half_fov as int),
        fx_ok(fx_div_s(zfar as int, zfar as int - znear as int)),
        fx_ok(fx_mul_s(znear as int, fx_div_s(zfar as int, zfar as int - znear as int))),
    ensures
        forall|i: int, j: int| 0 <= i < 4 && 0 <= j < 4
            ==> #[trigger] r.m[i][j] == proj_entry(aspect_ratio as int, inv_tan_half_fov as int,
                znear as int, zfar as int, i, j),
        mat_ok(r),
{
    let zscale: i64 = fx_div(zfar, zfar - znear);
    let mut r = Mat4x4::new();
    r.set(0, 0, fx_mul(aspect_ratio, inv_tan_half_fov));
    r.set(1, 1, inv_tan_half_fov);
    r.set(2, 2, zscale);
    r.set(2, 3, FX_ONE);
    r.set(3, 2, -fx_mul(znear, zscale));
    r
}

/// Law: the homogeneous identity matrix transforms every vector to
/// itself, exactly — the fixed-point products and the projective divide
/// by `w == FX_ONE` all cancel without loss.
pub proof fn lemma_identity_transform(m: Mat4x4, v: Vec3S)
    requires
        is_identity(m),
    ensures
        transform_s(m, v) == v,
        tf_w(m, v) == FX_ONE as int,
        vec_ok(v) ==> mv_fits(m, v),
{
    assert(v.x * m.m[0][0] + v.y * m.m[1][0] + v.z * m.m[2][0] + m.m[3][0] * FX_ONE == v.x * FX_ONE)
        by (nonlinear_arith)
        requires m.m[0][0] == FX_ONE as int, m.m[1][0] == 0, m.m[2][0] == 0, m.m[3][0] == 0,
    ;
    assert(v.x * m.m[0][1] + v.y * m.m[1][1] + v.z * m.m[2][1] + m.m[3][1] * FX_ONE == v.y * FX_ONE)
        by (nonlinear_arith)
        requires m.m[0][1] == 0, m.m[1][1] == FX_ONE as int, m.m[2][1] == 0, m.m[3][1] == 0,
    ;
    assert(v.x * m.m[0][2] + v.y * m.m[1][2] + v.z * m.m[2][2] + m.m[3][2] * FX_ONE == v.z * FX_ONE)
        by (nonlinear_arith)
        requires m.m[0][2] == 0, m.m[1][2] == 0, m.m[2][2] == FX_ONE as int, m.m[3][2] == 0,
    ;
    assert(v.x * m.m[0][3] + v.y * m.m[1][3] + v.z * m.m[2][3] + m.m[3][3] * FX_ONE
        == FX_ONE as int * FX_ONE)
        by (nonlinear_arith)
        requires m.m[0][3] == 0, m.m[1][3] == 0, m.m[2][3] == 0, m.m[3][3] == FX_ONE as int,
    ;
    lemma_tdiv_scale_cancels(v.x);
    lemma_tdiv_scale_cancels(v.y);
    lemma_tdiv_scale_cancels(v.z);
    lemma_tdiv_scale_cancels(FX_ONE as int);
    assert(tf_px(m, v) == v.x);
    assert(tf_py(m, v) == v.y);
    assert(tf_pz(m, v) == v.z);
    assert(tf_w(m, v) == FX_ONE as int);
}

/// `tdiv(x * FX_ONE, FX_ONE) == x`: scaling then unscaling is exact.
pub proof fn lemma_tdiv_scale_cancels(x: int)
    ensures
        tdiv(x * FX_ONE, FX_ONE as int) == x,
{
    if x >= 0 {
        vstd::arithmetic::div_mod::lemma_div_multiples_vanish(x, FX_ONE as int);
        assert(x * FX_ONE == FX_ONE * x) by (nonlinear_arith);
    } else {
        vstd::arithmetic::div_mod::lemma_div_multiples_vanish(-x, FX_ONE as int);
        assert(-(x * FX_ONE) == FX_ONE * -x) by (nonlinear_arith);
    }
}

/// Law: when the homogeneous `w` component comes out zero, the
/// transform returns the undivided components untouched — no division
/// is attempted.
pub proof fn lemma_zero_w_transform(m: Mat4x4, v: Vec3S)
    requires
        tf_w(m, v) == 0,
    ensures
        transform_s(m, v) == (Vec3S { x: tf_px(m, v), y: tf_py(m, v), z: tf_pz(m, v) }),
{
}

} // verus!
