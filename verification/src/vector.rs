use vstd::prelude::*;
use crate::fixed::{FX_ONE, FX_MAX, fx_mul, fx_mul_s, fx_sqrt, is_isqrt, i64_ok, fx_ok, tdiv, mul_wide, isqrt_u128, lemma_mul_bound};

verus! {

/// A 3-component vector of fixed-point scalars, used both as a position
/// and as a direction.
#[derive(Debug, Clone, Copy, PartialEq, Eq, Structural)]
pub struct Vec3D {
    pub x: i64,
    pub y: i64,
    pub z: i64,
}

/// The mathematical value of a `Vec3D`: three unbounded integers, each
/// standing for a real number scaled by `FX_ONE`.
pub ghost struct Vec3S {
    pub x: int,
    pub y: int,
    pub z: int,
}

impl View for Vec3D {
    type V = Vec3S;

    open spec fn view(&self) -> Vec3S {
        Vec3S { x: self.x as int, y: self.y as int, z: self.z as int }
    }
}

/// Every component is within the pipeline's fixed-point working range.
pub open spec fn vec_ok(v: Vec3S) -> bool {
    fx_ok(v.x) && fx_ok(v.y) && fx_ok(v.z)
}

/// Component-wise sum.
pub open spec fn add_vec_s(a: Vec3S, b: Vec3S) -> Vec3S {
    Vec3S { x: a.x + b.x, y: a.y + b.y, z: a.z + b.z }
}

/// Component-wise difference.
pub open spec fn sub_vec_s(a: Vec3S, b: Vec3S) -> Vec3S {
    Vec3S { x: a.x - b.x, y: a.y - b.y, z: a.z - b.z }
}

/// The same scalar added to every component.
pub open spec fn add_num_s(a: Vec3S, n: int) -> Vec3S {
    Vec3S { x: a.x + n, y: a.y + n, z: a.z + n }
}

/// Every component multiplied (fixed-point) by the scalar `f`.
pub open spec fn scale_s(a: Vec3S, f: int) -> Vec3S {
    Vec3S { x: fx_mul_s(a.x, f), y: fx_mul_s(a.y, f), z: fx_mul_s(a.z, f) }
}

/// The fixed-point dot product: the exact sum of products, divided once
/// by the scale with truncation.
pub open spec fn dot_s(a: Vec3S, b: Vec3S) -> int {
    tdiv(a.x * b.x + a.y * b.y + a.z * b.z, FX_ONE as int)
}

/// The right-handed fixed-point cross product; each component is an
/// exact difference of products, divided once by the scale.
pub open spec fn cross_s(a: Vec3S, b: Vec3S) -> Vec3S {
    Vec3S {
        x: tdiv(a.y * b.z - a.z * b.y, FX_ONE as int),
        y: tdiv(a.z * b.x - a.x * b.z, FX_ONE as int),
        z: tdiv(a.x * b.y - a.y * b.x, FX_ONE as int),
    }
}

/// The exact sum of the squared components.
pub open spec fn norm_sq(a: Vec3S) -> int {
    a.x * a.x + a.y * a.y + a.z * a.z
}

/// The Euclidean length in fixed point: since the components carry one
/// scale factor each, the integer square root of the raw sum of squares
/// is already the scaled length.
pub open spec fn len_s(a: Vec3S) -> int {
    fx_sqrt(norm_sq(a))
}

impl Vec3D {
    /// Adds the scalar to every component, in place.
    pub fn add_num_in_place(&mut self, number: i64)
        requires
            i64_ok(old(self)@.x + number),
            i64_ok(old(self)@.y + number),
            i64_ok(old(self)@.z + number),
        ensures
            final(self)@ == add_num_s(old(self)@, number as int),
    {
        self.x = self.x + number;
        self.y = self.y + number;
        self.z = self.z + number;
    }

    /// Subtracts the scalar from every component, in place.
    pub fn sub_num_in_place(&mut self, number: i64)
        requires
            number != i64::MIN,
            i64_ok(old(self)@.x - number),
            i64_ok(old(self)@.y - number),
            i64_ok(old(self)@.z - number),
        ensures
            final(self)@ == add_num_s(old(self)@, -(number as int)),
    {
        self.add_num_in_place(-number);
    }

    /// The component-wise sum, as a new vector.
    pub fn add_vec(&self, vector: &Vec3D) -> (r: Vec3D)
        requires
            i64_ok(self@.x + vector@.x),
            i64_ok(self@.y + vector@.y),
            i64_ok(self@.z + vector@.z),
        ensures
            r@ == add_vec_s(self@, vector@),
    {
        let mut res: Vec3D = self.clone();
        res.add_vec_in_place(vector);
        res
    }

    /// Adds the vector component-wise, in place.
    pub fn add_vec_in_place(&mut self, vector: &Vec3D)
        requires
            i64_ok(old(self)@.x + vector@.x),
            i64_ok(old(self)@.y + vector@.y),
            i64_ok(old(self)@.z + vector@.z),
        ensures
            final(self)@ == add_vec_s(old(self)@, vector@),
    {
        self.x = self.x + vector.x;
        self.y = self.y + vector.y;
        self.z = self.z + vector.z;
    }

    /// The component-wise difference, as a new vector.
    pub fn sub_vec(&self, vector: &Vec3D) -> (r: Vec3D)
        requires
            i64_ok(self@.x - vector@.x),
            i64_ok(self@.y - vector@.y),
            i64_ok(self@.z - vector@.z),
        ensures
            r@ == sub_vec_s(self@, vector@),
    {
        let mut res: Vec3D = self.clone();
        res.sub_vec_in_place(vector);
        res
    }

    /// Subtracts the vector component-wise, in place.
    pub fn sub_vec_in_place(&mut self, vector: &Vec3D)
        requires
            i64_ok(old(self)@.x - vector@.x),
            i64_ok(old(self)@.y - vector@.y),
            i64_ok(old(self)@.z - vector@.z),
        ensures
            final(self)@ == sub_vec_s(old(self)@, vector@),
    {
        self.x = self.x - vector.x;
        self.y = self.y - vector.y;
        self.z = self.z - vector.z;
    }

    /// Scales every component by the fixed-point factor, in place.
    pub fn scale_in_place(&mut self, scale_factor: i64)
        requires
            i64_ok(fx_mul_s(old(self)@.x, scale_factor as int)),
            i64_ok(fx_mul_s(old(self)@.y, scale_factor as int)),
            i64_ok(fx_mul_s(old(self)@.z, scale_factor as int)),
        ensures
            final(self)@ == scale_s(old(self)@, scale_factor as int),
    {
        self.x = fx_mul(self.x, scale_factor);
        self.y = fx_mul(self.y, scale_factor);
        self.z = fx_mul(self.z, scale_factor);
    }

    /// The fixed-point dot product of the two vectors.
    pub fn dot_product(&self, vector: &Vec3D) -> (r: i64)
        requires
            vec_ok(self@),
            vec_ok(vector@),
            i64_ok(dot_s(self@, vector@)),
        ensures
            r as int == dot_s(self@, vector@),
    {
        proof {
            lemma_mul_bound(self@.x, vector@.x, FX_MAX as int, FX_MAX as int);
            lemma_mul_bound(self@.y, vector@.y, FX_MAX as int, FX_MAX as int);
            lemma_mul_bound(self@.z, vector@.z, FX_MAX as int, FX_MAX as int);
        }
        let s: i128 = mul_wide(self.x, vector.x) + mul_wide(self.y, vector.y)
            + mul_wide(self.z, vector.z);
        let q: i128 = s / (FX_ONE as i128);
        q as i64
    }

    /// The right-handed fixed-point cross product of the two vectors.
    pub fn cross_product(&self, vector: &Vec3D) -> (r: Vec3D)
        requires
            vec_ok(self@),
            vec_ok(vector@),
            i64_ok(cross_s(self@, vector@).x),
            i64_ok(cross_s(self@, vector@).y),
            i64_ok(cross_s(self@, vector@).z),
        ensures
            r@ == cross_s(self@, vector@),
    {
        proof {
            lemma_mul_bound(self@.y, vector@.z, FX_MAX as int, FX_MAX as int);
            lemma_mul_bound(self@.z, vector@.y, FX_MAX as int, FX_MAX as int);
            lemma_mul_bound(self@.z, vector@.x, FX_MAX as int, FX_MAX as int);
            lemma_mul_bound(self@.x, vector@.z, FX_MAX as int, FX_MAX as int);
            lemma_mul_bound(self@.x, vector@.y, FX_MAX as int, FX_MAX as int);
            lemma_mul_bound(self@.y, vector@.x, FX_MAX as int, FX_MAX as int);
        }
        let cx: i128 = (mul_wide(self.y, vector.z) - mul_wide(self.z, vector.y))
            / (FX_ONE as i128);
        let cy: i128 = (mul_wide(self.z, vector.x) - mul_wide(self.x, vector.z))
            / (FX_ONE as i128);
        let cz: i128 = (mul_wide(self.x, vector.y) - mul_wide(self.y, vector.x))
            / (FX_ONE as i128);
        Vec3D { x: cx as i64, y: cy as i64, z: cz as i64 }
    }

    /// The Euclidean length, in fixed point.
    pub fn len(&self) -> (r: i64)
        requires
            vec_ok(self@),
        ensures
            r as int == len_s(self@),
            is_isqrt(r as int, norm_sq(self@)),
    {
        proof {
            lemma_mul_bound(self@.x, self@.x, FX_MAX as int, FX_MAX as int);
            lemma_mul_bound(self@.y, self@.y, FX_MAX as int, FX_MAX as int);
            lemma_mul_bound(self@.z, self@.z, FX_MAX as int, FX_MAX as int);
            assert(self@.x * self@.x >= 0 && self@.y * self@.y >= 0 && self@.z * self@.z >= 0)
                by (nonlinear_arith);
        }
        let s: i128 = mul_wide(self.x, self.x) + mul_wide(self.y, self.y)
            + mul_wide(self.z, self.z);
        let r: u64 = isqrt_u128(s as u128);
        proof {
            assert((r as int) < 0x200000000000) by (nonlinear_arith)
                requires
                    is_isqrt(r as int, s as int),
                    0 <= (s as int) < 0x40000000000000000000000int,
            ;
        }
        r as i64
    }
}

} // verus!
