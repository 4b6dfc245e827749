use vstd::prelude::*;
use crate::error::RendererError;
use crate::fixed::{FX_ONE, fx_div, fx_div_s, fx_mul_s, i64_ok, fx_ok, is_isqrt, lemma_tdiv_bound};
use crate::matrix::{Mat4x4, mat_ok, mv_fits, transform_s};
use crate::vector::{Vec3D, Vec3S, vec_ok, add_vec_s, sub_vec_s, cross_s, scale_s, len_s, norm_sq};

verus! {

/// An RGB color with 8-bit channels.
#[derive(Debug, Clone, Copy, PartialEq, Eq, Structural)]
pub struct Color {
    pub r: u8,
    pub g: u8,
    pub b: u8,
}

/// A triangle: exactly three points and one flat color.
#[derive(Debug, Clone, Copy, PartialEq, Eq, Structural)]
pub struct Triangle {
    pub p0: Vec3D,
    pub p1: Vec3D,
    pub p2: Vec3D,
    pub color: Color,
}

/// The mathematical value of a `Triangle`.
pub ghost struct TriS {
    pub p0: Vec3S,
    pub p1: Vec3S,
    pub p2: Vec3S,
    pub color: Color,
}

impl View for Triangle {
    type V = TriS;

    open spec fn view(&self) -> TriS {
        TriS { p0: self.p0@, p1: self.p1@, p2: self.p2@, color: self.color }
    }
}

/// The views of a sequence of triangles.
pub open spec fn tri_views(r: Seq<Triangle>) -> Seq<TriS> {
    r.map_values(|t: Triangle| t@)
}

/// Every point of the triangle is within the working range.
pub open spec fn tri_ok(t: TriS) -> bool {
    vec_ok(t.p0) && vec_ok(t.p1) && vec_ok(t.p2)
}

/// The triangle shifted by `(x, y, z)`, color unchanged.
pub open spec fn tri_translate_s(t: TriS, x: int, y: int, z: int) -> TriS {
    let d = Vec3S { x: x, y: y, z: z };
    TriS { p0: add_vec_s(t.p0, d), p1: add_vec_s(t.p1, d), p2: add_vec_s(t.p2, d), color: t.color }
}

/// The triangle with every point transformed by the matrix, color
/// unchanged.
pub open spec fn tri_transform_s(m: Mat4x4, t: TriS) -> TriS {
    TriS {
        p0: transform_s(m, t.p0),
        p1: transform_s(m, t.p1),
        p2: transform_s(m, t.p2),
        color: t.color,
    }
}

/// The unnormalized face normal: the cross product of the two edges
/// leaving point 0.
pub open spec fn tri_cross(t: TriS) -> Vec3S {
    cross_s(sub_vec_s(t.p1, t.p0), sub_vec_s(t.p2, t.p0))
}

/// The triangle is degenerate: its fixed-point cross product has length
/// zero, so no unit normal exists.
pub open spec fn degenerate_s(t: TriS) -> bool {
    len_s(tri_cross(t)) == 0
}

/// The normalized face normal: the cross product scaled by the
/// reciprocal of its length (meaningful only when not degenerate).
pub open spec fn normal_s(t: TriS) -> Vec3S {
    scale_s(tri_cross(t), fx_div_s(FX_ONE as int, len_s(tri_cross(t))))
}

/// Machine-limit conditions under which the face normal can be
/// computed: the two edges and the cross product stay in the working
/// range.
pub open spec fn normal_fits(t: TriS) -> bool {
    &&& fx_ok(sub_vec_s(t.p1, t.p0).x)
    &&& fx_ok(sub_vec_s(t.p1, t.p0).y)
    &&& fx_ok(sub_vec_s(t.p1, t.p0).z)
    &&& fx_ok(sub_vec_s(t.p2, t.p0).x)
    &&& fx_ok(sub_vec_s(t.p2, t.p0).y)
    &&& fx_ok(sub_vec_s(t.p2, t.p0).z)
    &&& fx_ok(tri_cross(t).x)
    &&& fx_ok(tri_cross(t).y)
    &&& fx_ok(tri_cross(t).z)
}

/// One component of the scaled cross product is bounded by the square
/// of the scale: `|c| <= len` and `len * recip <= FX_ONE^2` make the
/// product cancel.
proof fn lemma_normal_component_bound(c: int, s: int, l: int)
    requires
        is_isqrt(l, s),
        c * c <= s,
        l >= 1,
    ensures
        fx_ok(fx_mul_s(c, fx_div_s(FX_ONE as int, l))),
        -(FX_ONE as int * FX_ONE) <= fx_mul_s(c, fx_div_s(FX_ONE as int, l)) <= FX_ONE as int * FX_ONE,
{
    let recip = fx_div_s(FX_ONE as int, l);
    assert(-l <= c <= l) by (nonlinear_arith)
        requires c * c <= s, s < (l + 1) * (l + 1), l >= 0,
    ;
    lemma_tdiv_bound(FX_ONE as int * FX_ONE, l);
    vstd::arithmetic::div_mod::lemma_fundamental_div_mod(FX_ONE as int * FX_ONE, l);
    vstd::arithmetic::div_mod::lemma_mod_division_less_than_divisor(FX_ONE as int * FX_ONE, l);
    assert(l * recip <= FX_ONE as int * FX_ONE);
    assert(-(FX_ONE as int * FX_ONE) <= c * recip <= FX_ONE as int * FX_ONE) by (nonlinear_arith)
        requires -l <= c <= l, 0 <= recip, l * recip <= FX_ONE as int * FX_ONE,
    ;
    lemma_tdiv_bound(c * recip, FX_ONE as int);
}

impl Triangle {
    /// Shifts all three points by exactly `(x, y, z)`, leaving the color
    /// unchanged.
    pub fn translate(&mut self, x: i64, y: i64, z: i64)
        requires
            i64_ok(old(self)@.p0.x + x), i64_ok(old(self)@.p0.y + y), i64_ok(old(self)@.p0.z + z),
            i64_ok(old(self)@.p1.x + x), i64_ok(old(self)@.p1.y + y), i64_ok(old(self)@.p1.z + z),
            i64_ok(old(self)@.p2.x + x), i64_ok(old(self)@.p2.y + y), i64_ok(old(self)@.p2.z + z),
        ensures
            final(self)@ == tri_translate_s(old(self)@, x as int, y as int, z as int),
    {
        let d = Vec3D { x, y, z };
        self.p0.add_vec_in_place(&d);
        self.p1.add_vec_in_place(&d);
        self.p2.add_vec_in_place(&d);
    }

    /// Transforms all three points by the matrix, leaving the color
    /// unchanged.
    pub fn apply_matrix_transform(&mut self, matrix: &Mat4x4)
        requires
            mat_ok(*matrix),
            tri_ok(old(self)@),
            mv_fits(*matrix, old(self)@.p0),
            mv_fits(*matrix, old(self)@.p1),
            mv_fits(*matrix, old(self)@.p2),
        ensures
            final(self)@ == tri_transform_s(*matrix, old(self)@),
            tri_ok(final(self)@),
    {
        self.p0 = matrix.multiply_vector(&self.p0);
        self.p1 = matrix.multiply_vector(&self.p1);
        self.p2 = matrix.multiply_vector(&self.p2);
    }

    /// The normalized face normal, or `DomainError` exactly when the
    /// triangle is degenerate (zero-length cross product).
    pub fn normal(&self) -> (r: Result<Vec3D, RendererError>)
        requires
            tri_ok(self@),
            normal_fits(self@),
        ensures
            match r {
                Ok(n) => {
                    &&& !degenerate_s(self@)
                    &&& n@ == normal_s(self@)
                    &&& vec_ok(n@)
                    &&& -(FX_ONE as int * FX_ONE) <= n@.x <= FX_ONE as int * FX_ONE
                    &&& -(FX_ONE as int * FX_ONE) <= n@.y <= FX_ONE as int * FX_ONE
                    &&& -(FX_ONE as int * FX_ONE) <= n@.z <= FX_ONE as int * FX_ONE
                },
                Err(e) => degenerate_s(self@) && e == RendererError::DomainError,
            },
    {
        let line1: Vec3D = self.p1.sub_vec(&self.p0);
        let line2: Vec3D = self.p2.sub_vec(&self.p0);

        let mut calc_normal: Vec3D = line1.cross_product(&line2);
        let l: i64 = calc_normal.len();
        if l == 0 {
            return Err(RendererError::DomainError);
        }
        proof {
            let c = tri_cross(self@);
            let s = norm_sq(c);
            assert(c.x * c.x >= 0 && c.y * c.y >= 0 && c.z * c.z >= 0) by (nonlinear_arith);
            lemma_normal_component_bound(c.x, s, l as int);
            lemma_normal_component_bound(c.y, s, l as int);
            lemma_normal_component_bound(c.z, s, l as int);
        }
        let recip: i64 = fx_div(FX_ONE, l);
        calc_normal.scale_in_place(recip);
        Ok(calc_normal)
    }
}

/// An ordered sequence of triangles.  Built once by the loader or from
/// a built-in shape, then read-only for the rest of the run: each frame
/// works on transformed copies of the triangles.
#[derive(Debug, Clone)]
pub struct Mesh {
    pub tris: Vec<Triangle>,
}

} // verus!
