use vstd::prelude::*;

verus! {

/// The fixed-point scale: a scalar `a: i64` stands for the real number
/// `a / FX_ONE`.  One whole unit is `FX_ONE`.
pub const FX_ONE: i64 = 65536;

/// Bound on the fixed-point values the pipeline works with: two such
/// values can be multiplied and three products summed without leaving
/// `i128`, with ample room to spare.
pub const FX_MAX: i64 = 0x1000_0000_0000;

/// `x` fits in an `i64`.
pub open spec fn i64_ok(x: int) -> bool {
    i64::MIN <= x <= i64::MAX
}

/// `x` is within the working range of the pipeline's fixed-point values.
pub open spec fn fx_ok(x: int) -> bool {
    -FX_MAX <= x <= FX_MAX
}

/// Truncating integer division (rounding toward zero), the semantics of
/// Rust's `/` on signed integers, written over the Euclidean `/` of
/// specifications.
pub open spec fn tdiv(a: int, b: int) -> int {
    if a >= 0 {
        a / b
    } else {
        -((-a) / b)
    }
}

/// The fixed-point product: `(a * b) / FX_ONE`, truncated toward zero.
pub open spec fn fx_mul_s(a: int, b: int) -> int {
    tdiv(a * b, FX_ONE as int)
}

/// The fixed-point quotient: `(a * FX_ONE) / b`, truncated toward zero.
pub open spec fn fx_div_s(a: int, b: int) -> int {
    tdiv(a * FX_ONE, b)
}

/// `r` is the integer square root of `s`: the greatest integer whose
/// square does not exceed `s`.
pub open spec fn is_isqrt(r: int, s: int) -> bool {
    0 <= r && r * r <= s && s < (r + 1) * (r + 1)
}

/// The integer square root of `s` (for `s >= 0`).
pub open spec fn fx_sqrt(s: int) -> int {
    choose|r: int| is_isqrt(r, s)
}

/// Two integer square roots of the same number are equal.
pub proof fn lemma_isqrt_unique(a: int, b: int, s: int)
    requires
        is_isqrt(a, s),
        is_isqrt(b, s),
    ensures
        a == b,
{
    assert(a == b) by (nonlinear_arith)
        requires
            0 <= a,
            a * a <= s,
            s < (a + 1) * (a + 1),
            0 <= b,
            b * b <= s,
            s < (b + 1) * (b + 1),
    ;
}

/// A witness for `is_isqrt` pins down `fx_sqrt`.
pub proof fn lemma_fx_sqrt(r: int, s: int)
    requires
        is_isqrt(r, s),
    ensures
        fx_sqrt(s) == r,
{
    assert(is_isqrt(fx_sqrt(s), s)) by {
        assert(exists|x: int| is_isqrt(x, s));
    }
    lemma_isqrt_unique(fx_sqrt(s), r, s);
}

/// Truncating division by a positive divisor keeps the sign and shrinks
/// the magnitude: `|tdiv(a, b)| <= |a|`.
pub proof fn lemma_tdiv_bound(a: int, b: int)
    requires
        b > 0,
    ensures
        a >= 0 ==> 0 <= tdiv(a, b) <= a,
        a < 0 ==> a <= tdiv(a, b) <= 0,
{
    if a >= 0 {
        vstd::arithmetic::div_mod::lemma_div_pos_is_pos(a, b);
        vstd::arithmetic::div_mod::lemma_div_nonincreasing(a, b);
    } else {
        vstd::arithmetic::div_mod::lemma_div_pos_is_pos(-a, b);
        vstd::arithmetic::div_mod::lemma_div_nonincreasing(-a, b);
    }
}

/// Bounds on the factors bound the product.
pub proof fn lemma_mul_bound(a: int, b: int, m: int, n: int)
    requires
        -m <= a <= m,
        -n <= b <= n,
        0 <= m,
        0 <= n,
    ensures
        -(m * n) <= a * b <= m * n,
{
    assert(-(m * n) <= a * b <= m * n) by (nonlinear_arith)
        requires -m <= a <= m, -n <= b <= n, 0 <= m, 0 <= n,
    ;
}

/// The product of two `i64` values, computed without overflow in `i128`.
pub fn mul_wide(a: i64, b: i64) -> (r: i128)
    ensures
        r as int == a as int * b as int,
{
    proof {
        assert(-0x40000000000000000000000000000000 <= a as int * b as int
            <= 0x40000000000000000000000000000000int) by (nonlinear_arith)
            requires
                -0x8000000000000000 <= a as int <= 0x7fffffffffffffff,
                -0x8000000000000000 <= b as int <= 0x7fffffffffffffff,
        ;
    }
    (a as i128) * (b as i128)
}

/// Fixed-point multiplication: exact product, then truncating division
/// by the scale.
pub fn fx_mul(a: i64, b: i64) -> (r: i64)
    requires
        i64_ok(fx_mul_s(a as int, b as int)),
    ensures
        r as int == fx_mul_s(a as int, b as int),
{
    let p: i128 = mul_wide(a, b);
    let q: i128 = p / (FX_ONE as i128);
    q as i64
}

/// Fixed-point division: the dividend is raised by the scale, then
/// divided with truncation.  The divisor must be nonzero.
pub fn fx_div(a: i64, b: i64) -> (r: i64)
    requires
        b != 0,
        i64_ok(fx_div_s(a as int, b as int)),
    ensures
        r as int == fx_div_s(a as int, b as int),
{
    let p: i128 = mul_wide(a, FX_ONE);
    let q: i128 = p / (b as i128);
    q as i64
}

/// The integer square root of a `u128`, by bisection.
pub fn isqrt_u128(s: u128) -> (r: u64)
    ensures
        is_isqrt(r as int, s as int),
        r as int == fx_sqrt(s as int),
{
    let mut lo: u128 = 0;
    let mut hi: u128 = 0x1_0000_0000_0000_0000;
    while lo + 1 < hi
        invariant
            lo < hi <= 0x1_0000_0000_0000_0000,
            lo as int * lo as int <= s as int,
            (s as int) < hi as int * hi as int,
        decreases hi - lo,
    {
        let mid: u128 = lo + (hi - lo) / 2;
        proof {
            assert((mid as int) * (mid as int) < 0x100000000000000000000000000000000int) by (nonlinear_arith)
                requires 0 <= (mid as int) < 0x10000000000000000int,
            ;
        }
        let sq: u128 = mid * mid;
        if sq <= s {
            lo = mid;
        } else {
            hi = mid;
        }
    }
    proof {
        lemma_fx_sqrt(lo as int, s as int);
    }
    lo as u64
}

} // verus!
