use vstd::prelude::*;
use vstd::seq_lib::group_to_multiset_ensures;
use crate::error::RendererError;
use crate::fixed::{FX_ONE, fx_mul, fx_mul_s, i64_ok, fx_ok, tdiv, mul_wide, lemma_tdiv_bound};
use crate::matrix::{Mat4x4, mat_ok, mv_fits};
use crate::mesh::{Color, Triangle, TriS, Mesh, tri_views, tri_ok, tri_translate_s, tri_transform_s, normal_s, normal_fits, degenerate_s};
use crate::vector::{Vec3D, Vec3S, vec_ok, sub_vec_s, dot_s};

verus! {

/// The fixed light direction: a unit vector along `-z`, pre-normalized.
pub open spec fn light_s() -> Vec3S {
    Vec3S { x: 0, y: 0, z: -(FX_ONE as int) }
}

/// A luminance level clamped to an 8-bit channel.
pub open spec fn clamp8(l: int) -> u8 {
    if l < 0 {
        0
    } else if l > 255 {
        255
    } else {
        l as u8
    }
}

/// The flat shade of a face with the given unit normal: the dot product
/// with the light direction, mapped to one grayscale level on all three
/// channels, clamped to `[0, 255]`.
pub open spec fn shade_of(n: Vec3S) -> Color {
    let lum = dot_s(n, light_s());
    let level = clamp8(tdiv(lum * 256, FX_ONE as int));
    Color { r: level, g: level, b: level }
}

/// The mean depth of a triangle: the truncated average of its three `z`
/// coordinates, all taken at the same stage of the pipeline.
pub open spec fn depth_s(t: TriS) -> int {
    tdiv(t.p0.z + t.p1.z + t.p2.z, 3)
}

/// The sequence is ordered by descending mean depth (farthest first);
/// equal depths may stand in either order.
pub open spec fn sorted_desc(s: Seq<Triangle>) -> bool {
    forall|i: int, j: int| 0 <= i < j < s.len() ==> depth_s(s[i]@) >= depth_s(s[j]@)
}

/// The camera-space triangle: rotated about `z`, then about `x`, then
/// translated along `z`.
pub open spec fn camera_space_s(t: TriS, rz: Mat4x4, rx: Mat4x4, zt: int) -> TriS {
    tri_translate_s(tri_transform_s(rx, tri_transform_s(rz, t)), 0, 0, zt)
}

/// Backface test: the camera-space triangle faces the camera exactly
/// when its normal and the vector from the camera to its first point
/// make a negative dot product.
pub open spec fn visible_s(ct: TriS, cam: Vec3S) -> bool {
    dot_s(normal_s(ct), sub_vec_s(ct.p0, cam)) < 0
}

/// One point mapped from normalized device coordinates to pixel space:
/// `(ndc + 1) * half_dimension` on `x` and `y`, depth untouched.
pub open spec fn screen_map_v(v: Vec3S, hw: int, hh: int) -> Vec3S {
    Vec3S {
        x: fx_mul_s(v.x + FX_ONE, hw),
        y: fx_mul_s(v.y + FX_ONE, hh),
        z: v.z,
    }
}

/// The finished screen-space triangle a visible camera-space triangle
/// becomes: shaded, projected, and mapped to pixels.
pub open spec fn frame_tri_s(ct: TriS, proj: Mat4x4, hw: int, hh: int) -> TriS {
    let g = tri_transform_s(proj, ct);
    TriS {
        p0: screen_map_v(g.p0, hw, hh),
        p1: screen_map_v(g.p1, hw, hh),
        p2: screen_map_v(g.p2, hw, hh),
        color: shade_of(normal_s(ct)),
    }
}

/// The screen-space triangles of the visible subset, in mesh order.
pub open spec fn visible_out_s(ts: Seq<TriS>, rz: Mat4x4, rx: Mat4x4, proj: Mat4x4, zt: int, cam: Vec3S, hw: int, hh: int) -> Seq<TriS>
    decreases ts.len(),
{
    if ts.len() == 0 {
        seq![]
    } else {
        let rest = visible_out_s(ts.drop_last(), rz, rx, proj, zt, cam, hw, hh);
        let ct = camera_space_s(ts.last(), rz, rx, zt);
        if visible_s(ct, cam) {
            rest + seq![frame_tri_s(ct, proj, hw, hh)]
        } else {
            rest
        }
    }
}

/// The machine-limit conditions under which one triangle passes the
/// whole frame pipeline exactly: every stage's values stay in the
/// working range.
pub open spec fn tri_fits(t: TriS, rz: Mat4x4, rx: Mat4x4, proj: Mat4x4, zt: int, cam: Vec3S, hw: int, hh: int) -> bool {
    let t1 = tri_transform_s(rz, t);
    let t2 = tri_transform_s(rx, t1);
    let ct = tri_translate_s(t2, 0, 0, zt);
    let g = tri_transform_s(proj, ct);
    &&& tri_ok(t)
    &&& mv_fits(rz, t.p0)
    &&& mv_fits(rz, t.p1)
    &&& mv_fits(rz, t.p2)
    &&& mv_fits(rx, t1.p0)
    &&& mv_fits(rx, t1.p1)
    &&& mv_fits(rx, t1.p2)
    &&& fx_ok(t2.p0.z + zt)
    &&& fx_ok(t2.p1.z + zt)
    &&& fx_ok(t2.p2.z + zt)
    &&& normal_fits(ct)
    &&& fx_ok(sub_vec_s(ct.p0, cam).x)
    &&& fx_ok(sub_vec_s(ct.p0, cam).y)
    &&& fx_ok(sub_vec_s(ct.p0, cam).z)
    &&& i64_ok(dot_s(normal_s(ct), sub_vec_s(ct.p0, cam)))
    &&& ((!degenerate_s(ct) && visible_s(ct, cam)) ==> {
        &&& mv_fits(proj, ct.p0)
        &&& mv_fits(proj, ct.p1)
        &&& mv_fits(proj, ct.p2)
        &&& i64_ok(fx_mul_s(g.p0.x + FX_ONE, hw))
        &&& i64_ok(fx_mul_s(g.p0.y + FX_ONE, hh))
        &&& i64_ok(fx_mul_s(g.p1.x + FX_ONE, hw))
        &&& i64_ok(fx_mul_s(g.p1.y + FX_ONE, hh))
        &&& i64_ok(fx_mul_s(g.p2.x + FX_ONE, hw))
        &&& i64_ok(fx_mul_s(g.p2.y + FX_ONE, hh))
    })
}

/// The flat shade for a face normal: one grayscale level from the dot
/// product with the fixed light direction, clamped to `[0, 255]`.
pub fn flat_shade(normal: &Vec3D) -> (c: Color)
    requires
        vec_ok(normal@),
    ensures
        c == shade_of(normal@),
{
    let light = Vec3D { x: 0, y: 0, z: -FX_ONE };
    proof {
        lemma_tdiv_bound(normal@.x * 0 + normal@.y * 0 + normal@.z * (-(FX_ONE as int)), FX_ONE as int);
    }
    let lum: i64 = normal.dot_product(&light);
    let level: i128 = mul_wide(lum, 256) / (FX_ONE as i128);
    proof {
        lemma_tdiv_bound(lum as int * 256, FX_ONE as int);
    }
    let v: u8 = if level < 0 {
        0
    } else if level > 255 {
        255
    } else {
        level as u8
    };
    Color { r: v, g: v, b: v }
}

/// The quotient by three keeps a third of the range.
proof fn lemma_tdiv3_bound(a: int, lo: int, hi: int)
    requires
        3 * lo <= a <= 3 * hi,
        lo <= 0 <= hi,
    ensures
        lo <= tdiv(a, 3) <= hi,
{
    if a >= 0 {
        vstd::arithmetic::div_mod::lemma_div_is_ordered(a, 3 * hi, 3);
        vstd::arithmetic::div_mod::lemma_div_multiples_vanish(hi, 3);
        vstd::arithmetic::div_mod::lemma_div_pos_is_pos(a, 3);
    } else {
        vstd::arithmetic::div_mod::lemma_div_is_ordered(-a, 3 * -lo, 3);
        vstd::arithmetic::div_mod::lemma_div_multiples_vanish(-lo, 3);
        vstd::arithmetic::div_mod::lemma_div_pos_is_pos(-a, 3);
    }
}

/// The mean depth of a triangle: the truncated average of its three
/// `z` coordinates.
pub fn mean_depth(t: &Triangle) -> (r: i64)
    ensures
        r as int == depth_s(t@),
{
    let s: i128 = (t.p0.z as i128) + (t.p1.z as i128) + (t.p2.z as i128);
    proof {
        lemma_tdiv3_bound(s as int, -0x8000_0000_0000_0000, 0x7fff_ffff_ffff_ffff);
    }
    let q: i128 = s / 3;
    q as i64
}

/// Sorts the triangles by descending mean depth (farthest first), by
/// selection of the deepest remaining triangle.  The result is a
/// permutation: ties keep no particular order.
#[verifier::loop_isolation(false)]
pub fn sort_by_depth(tris: &mut Vec<Triangle>)
    ensures
        final(tris)@.to_multiset() == old(tris)@.to_multiset(),
        tri_views(final(tris)@).to_multiset() == tri_views(old(tris)@).to_multiset(),
        sorted_desc(final(tris)@),
{
    broadcast use group_to_multiset_ensures;

    let mut out: Vec<Triangle> = Vec::new();
    while tris.len() > 0
        invariant
            out@.to_multiset().add(tris@.to_multiset()) == old(tris)@.to_multiset(),
            tri_views(out@).to_multiset().add(tri_views(tris@).to_multiset())
                == tri_views(old(tris)@).to_multiset(),
            sorted_desc(out@),
            forall|a: int, b: int| 0 <= a < out@.len() && 0 <= b < tris@.len()
                ==> depth_s(#[trigger] out@[a]@) >= depth_s(#[trigger] tris@[b]@),
        decreases tris@.len(),
    {
        let mut best: usize = 0;
        let mut k: usize = 1;
        while k < tris.len()
            invariant
                0 <= best < tris@.len(),
                1 <= k <= tris@.len(),
                forall|j: int| 0 <= j < k ==> depth_s(tris@[best as int]@) >= depth_s(#[trigger] tris@[j]@),
            decreases tris@.len() - k,
        {
            if mean_depth(&tris[k]) > mean_depth(&tris[best]) {
                best = k;
            }
            k = k + 1;
        }
        let ghost oldtris = tris@;
        let ghost oldout = out@;
        let t = tris.remove(best);
        out.push(t);
        proof {
            assert(oldtris.contains(oldtris[best as int]));
            assert(out@.to_multiset().add(tris@.to_multiset()) =~= oldout.to_multiset().add(
                oldtris.to_multiset(),
            ));
            assert(tri_views(tris@) =~= tri_views(oldtris).remove(best as int));
            assert(tri_views(out@) =~= tri_views(oldout).push(t@));
            assert(tri_views(oldtris).contains(tri_views(oldtris)[best as int]));
            assert(tri_views(out@).to_multiset().add(tri_views(tris@).to_multiset())
                =~= tri_views(oldout).to_multiset().add(tri_views(oldtris).to_multiset()));
            assert forall|b: int| 0 <= b < tris@.len() implies depth_s(t@) >= depth_s(
                #[trigger] tris@[b]@,
            ) by {
                if b < best {
                    assert(tris@[b] == oldtris[b]);
                } else {
                    assert(tris@[b] == oldtris[b + 1]);
                }
            }
        }
    }
    proof {
        assert(tris@ =~= Seq::<Triangle>::empty());
        assert(out@.to_multiset().add(tris@.to_multiset()) =~= out@.to_multiset());
        assert(tri_views(tris@) =~= Seq::<TriS>::empty());
        assert(tri_views(out@).to_multiset().add(tri_views(tris@).to_multiset())
            =~= tri_views(out@).to_multiset());
    }
    *tris = out;
}

/// One point mapped from normalized device coordinates to pixels.
fn screen_map_point(v: &Vec3D, hw: i64, hh: i64) -> (r: Vec3D)
    requires
        vec_ok(v@),
        i64_ok(fx_mul_s(v@.x + FX_ONE, hw as int)),
        i64_ok(fx_mul_s(v@.y + FX_ONE, hh as int)),
    ensures
        r@ == screen_map_v(v@, hw as int, hh as int),
{
    Vec3D { x: fx_mul(v.x + FX_ONE, hw), y: fx_mul(v.y + FX_ONE, hh), z: v.z }
}

/// Runs one frame of the pipeline over the base mesh: each triangle is
/// rotated about `z` then `x`, translated along `z` into camera space,
/// culled if it faces away from the camera, flat-shaded, projected,
/// and mapped to pixel coordinates; the surviving triangles come back
/// ordered by descending mean depth, ready for a painter's-algorithm
/// draw.  The base mesh is never changed.  A degenerate triangle (zero
/// cross product) aborts the frame with `DomainError`.
#[verifier::loop_isolation(false)]
pub fn render_frame(
    mesh: &Mesh,
    rot_z: &Mat4x4,
    rot_x: &Mat4x4,
    projection: &Mat4x4,
    z_translation: i64,
    camera: &Vec3D,
    width: u32,
    height: u32,
) -> (r: Result<Vec<Triangle>, RendererError>)
    requires
        mat_ok(*rot_z),
        mat_ok(*rot_x),
        mat_ok(*projection),
        vec_ok(camera@),
        forall|k: int| 0 <= k < mesh.tris@.len() ==> tri_fits(
            #[trigger] mesh.tris@[k]@,
            *rot_z,
            *rot_x,
            *projection,
            z_translation as int,
            camera@,
            width as int * 32768,
            height as int * 32768,
        ),
    ensures
        match r {
            Ok(out) => {
                &&& forall|k: int| 0 <= k < mesh.tris@.len() ==> !degenerate_s(camera_space_s(
                    #[trigger] mesh.tris@[k]@,
                    *rot_z,
                    *rot_x,
                    z_translation as int,
                ))
                &&& tri_views(out@).to_multiset() == visible_out_s(
                    tri_views(mesh.tris@),
                    *rot_z,
                    *rot_x,
                    *projection,
                    z_translation as int,
                    camera@,
                    width as int * 32768,
                    height as int * 32768,
                ).to_multiset()
                &&& sorted_desc(out@)
            },
            Err(e) => {
                &&& e == RendererError::DomainError
                &&& exists|k: int| 0 <= k < mesh.tris@.len() && degenerate_s(camera_space_s(
                    #[trigger] mesh.tris@[k]@,
                    *rot_z,
                    *rot_x,
                    z_translation as int,
                ))
            },
        },
{
    let hw: i64 = (width as i64) * 32768;
    let hh: i64 = (height as i64) * 32768;
    let ghost mviews = tri_views(mesh.tris@);
    let mut out: Vec<Triangle> = Vec::new();
    let mut ti: usize = 0;
    proof {
        assert(mviews.take(0) =~= Seq::<TriS>::empty());
    }
    while ti < mesh.tris.len()
        invariant
            0 <= ti <= mesh.tris@.len(),
            forall|k: int| 0 <= k < ti ==> !degenerate_s(camera_space_s(
                #[trigger] mesh.tris@[k]@,
                *rot_z,
                *rot_x,
                z_translation as int,
            )),
            tri_views(out@) == visible_out_s(mviews.take(ti as int), *rot_z, *rot_x, *projection,
                z_translation as int, camera@, hw as int, hh as int),
        decreases mesh.tris@.len() - ti,
    {
        let ghost t0 = mesh.tris@[ti as int]@;
        proof {
            assert(mviews[ti as int] == t0);
            assert(mviews.take(ti + 1).drop_last() =~= mviews.take(ti as int));
            assert(mviews.take(ti + 1).last() == t0);
        }
        let mut ntri: Triangle = mesh.tris[ti];

        ntri.apply_matrix_transform(rot_z);
        ntri.apply_matrix_transform(rot_x);
        ntri.translate(0, 0, z_translation);
        let ghost ct = camera_space_s(t0, *rot_z, *rot_x, z_translation as int);
        proof {
            assert(ntri@ == ct);
        }

        let n: Vec3D = match ntri.normal() {
            Ok(n) => n,
            Err(e) => {
                return Err(e);
            },
        };
        let view_vec: Vec3D = ntri.p0.sub_vec(camera);
        let d: i64 = n.dot_product(&view_vec);
        if d < 0 {
            ntri.color = flat_shade(&n);
            ntri.apply_matrix_transform(projection);
            ntri.p0 = screen_map_point(&ntri.p0, hw, hh);
            ntri.p1 = screen_map_point(&ntri.p1, hw, hh);
            ntri.p2 = screen_map_point(&ntri.p2, hw, hh);
            let ghost oldout = out@;
            out.push(ntri);
            proof {
                assert(ntri@ == frame_tri_s(ct, *projection, hw as int, hh as int));
                assert(tri_views(out@) =~= tri_views(oldout).push(ntri@));
            }
        }
        ti = ti + 1;
    }
    proof {
        assert(mviews.take(mesh.tris@.len() as int) =~= mviews);
    }
    sort_by_depth(&mut out);
    Ok(out)
}

} // verus!
