//! The renderer and its shading integrator.
//!
//! One frame turns a camera's ray table and a scene into a packed pixel
//! buffer, blending each new per-pixel sample into a running accumulation
//! buffer that is divided by the frame index to give a progressively
//! denoised estimate.  The integrator casts up to [`MAX_BOUNCES`] rays per
//! pixel: each bounce solves the analytic ray-sphere quadratic against every
//! sphere, keeps the closest strictly positive hit (the lowest sphere index
//! wins exact ties), shades it with a fixed directional light, halves the
//! energy and
//! reflects, perturbing the reflection by the material's roughness with the
//! deterministic per-pixel random sequence.  Directions are kept unit
//! length from bounce to bounce; a degenerate zero direction simply misses.
//!
//! Every pixel's sample is a pure function of the scene, the camera and the
//! pixel's own seed, so rows can be rendered in any order — sequentially or
//! by a fork-join pool — with bit-identical results.

use vstd::prelude::*;
use vstd::arithmetic::div_mod::{
    lemma_div_is_ordered, lemma_div_multiples_vanish, lemma_fundamental_div_mod,
    lemma_fundamental_div_mod_converse, lemma_mod_bound,
};
use rayon::iter::{IntoParallelIterator, ParallelIterator};
use crate::fx::{
    fx_mul, fx_mul_s, isqrt, isqrt_s, lemma_isqrt_exists, lemma_mag_mul, lemma_mag_mul_bound,
    lemma_trunc_div_mag, lemma_trunc_div_nonneg, mag, trunc_div, div_int, HALF, ONE, SCALE,
};
use crate::random::{pixel_seed, pixel_seed_s, random_vec3fx, wang_hash, signed_fx_of};
use crate::rt::color::{color_to_u32, pack_s};
use crate::camera::{camera_wf, Camera, VIEWPORT_MAX};
use crate::rt::ray::Ray;
use crate::scene::{material_wf, materials_nonneg, scene_wf, sphere_wf, Material, Scene, Sphere, COORD_MAX};
use crate::vec3::{
    add3_s, add4_s, bounded3, bounded4, clamp4_s, div4_int_s, dot_s, lemma_dot_bound,
    lemma_scale3_bound_by, lemma_scale4_bound_by, lemma_unit_or_zero_s_bounded, neg3_s,
    reflect_s, scale3_s, scale4_s, sub3_s, unit_or_zero_s, unit_s, Vec3, Vec4, V3i, V4i,
};

verus! {

/// Number of bounces the integrator follows for one pixel.
pub const MAX_BOUNCES: u32 = 5;

/// The miss sentinel a trace reports when no sphere is hit: a distance
/// strictly above every candidate root the world bounds allow (see
/// [`HIT_CAP`]), so no real hit can ever be mistaken for a miss.
pub const T_FAR: i128 = 0x4000_0000_0000_0000;

/// Every candidate hit distance stays below this bound whenever the ray
/// origin is within the integrator's budget; the miss sentinel sits strictly
/// above it.
pub const HIT_CAP: i128 = 0x1000_0000_0000_0000;

/// Bias moving a bounce origin off the surface it hit, avoiding immediate
/// self-intersection.
pub const SURFACE_EPS: i128 = 7;

/// Bound on the magnitude of every per-pixel sample channel.
pub const SAMPLE_MAX: i128 = 0x8000_0000;

/// Execution and accumulation switches of the renderer.
pub struct RendererSettings {
    pub accumulate: bool,
    pub use_threads: bool,
}

/// The packed pixel buffer: row-major, row zero at the image top.
pub struct Canvas {
    pub data: Vec<u32>,
    pub width: u32,
    pub height: u32,
}

/// What the trace step reports about the closest hit, or about a miss.
pub struct HitPayload {
    pub hit_distance: i128,
    pub world_position: Vec3,
    pub world_normal: Vec3,
    pub object_index: usize,
}

/// A buffer of `n` neutral accumulators.
fn neutral_buffer(n: usize) -> (r: Vec<Vec4>)
    ensures
        r@.len() == n,
        forall|i: int| 0 <= i < n ==> (#[trigger] r@[i]).m() == neutral4_s(),
{
    let mut r: Vec<Vec4> = Vec::new();
    let mut i: usize = 0;
    while i < n
        invariant
            i <= n,
            r@.len() == i,
            forall|j: int| 0 <= j < i ==> (#[trigger] r@[j]).m() == neutral4_s(),
        decreases n - i,
    {
        r.push(Vec4 { x: 0, y: 0, z: 0, w: ONE });
        i = i + 1;
    }
    r
}

impl Canvas {
    /// A zeroed canvas of the given dimensions.
    pub fn new(width: u32, height: u32) -> (r: Canvas)
        requires
            width <= VIEWPORT_MAX,
            height <= VIEWPORT_MAX,
        ensures
            r.width == width,
            r.height == height,
            r.data@.len() == width * height,
            forall|i: int| 0 <= i < r.data@.len() ==> #[trigger] r.data@[i] == 0u32,
    {
        proof {
            assert((width as int) * (height as int) <= 4096 * 4096) by (nonlinear_arith)
                requires
                    width <= 4096,
                    height <= 4096,
            ;
        }
        let n: usize = (width as usize) * (height as usize);
        let mut data: Vec<u32> = Vec::new();
        let mut i: usize = 0;
        while i < n
            invariant
                i <= n,
                data@.len() == i,
                forall|j: int| 0 <= j < i ==> #[trigger] data@[j] == 0u32,
            decreases n - i,
        {
            data.push(0);
            i = i + 1;
        }
        Canvas { data, width, height }
    }

    /// Reallocates the pixel buffer for the new dimensions, zero-filling it.
    pub fn resize(&mut self, width: u32, height: u32)
        requires
            width <= VIEWPORT_MAX,
            height <= VIEWPORT_MAX,
        ensures
            final(self).width == width,
            final(self).height == height,
            final(self).data@.len() == width * height,
            forall|i: int|
                0 <= i < final(self).data@.len() ==> #[trigger] final(self).data@[i] == 0u32,
    {
        proof {
            assert((width as int) * (height as int) <= 4096 * 4096) by (nonlinear_arith)
                requires
                    width <= 4096,
                    height <= 4096,
            ;
        }
        let n: usize = (width as usize) * (height as usize);
        let mut data: Vec<u32> = Vec::new();
        let mut i: usize = 0;
        while i < n
            invariant
                i <= n,
                data@.len() == i,
                forall|j: int| 0 <= j < i ==> #[trigger] data@[j] == 0u32,
            decreases n - i,
        {
            data.push(0);
            i = i + 1;
        }
        self.data = data;
        self.width = width;
        self.height = height;
    }
}

/// The sky color, linear RGBA.
pub open spec fn sky4_s() -> V4i {
    V4i { x: 39322, y: 45875, z: 58982, w: ONE as int }
}

/// The neutral accumulator value: zero color, full alpha.
pub open spec fn neutral4_s() -> V4i {
    V4i { x: 0, y: 0, z: 0, w: ONE as int }
}

/// The fixed directional light, pointing down the diagonal.
pub open spec fn light_dir_s() -> V3i {
    unit_s(V3i { x: -(ONE as int), y: -(ONE as int), z: -(ONE as int) })
}

/// The discriminant of the ray-sphere quadratic, at twice the fixed-point
/// scale: `b^2 - 4 a c` over the fixed-point coefficients.
pub open spec fn cand_disc_s(o: V3i, d: V3i, sp: Sphere) -> int {
    let oc = sub3_s(o, sp.position.m());
    let a = dot_s(d, d);
    let b = 2 * dot_s(oc, d);
    let c = dot_s(oc, oc) - fx_mul_s(sp.radius as int, sp.radius as int);
    b * b - 4 * (a * c)
}

/// The candidate hit distance of one sphere: the smaller quadratic root,
/// `(-b - sqrt(disc)) / 2 * a`, meaningful only when the discriminant is
/// non-negative.
pub open spec fn cand_t_s(o: V3i, d: V3i, sp: Sphere) -> int {
    let oc = sub3_s(o, sp.position.m());
    let a = dot_s(d, d);
    let b = 2 * dot_s(oc, d);
    fx_mul_s(trunc_div(-b - isqrt_s(cand_disc_s(o, d, sp)), 2), a)
}

/// Folds the candidate hits of the spheres from index `i` on into the best
/// `(index, distance)` seen so far: a sphere becomes the best hit only when
/// its discriminant is non-negative and its distance is strictly positive
/// and strictly below the best so far, so the lowest index wins exact ties.
pub open spec fn trace_loop_s(
    o: V3i,
    d: V3i,
    spheres: Seq<Sphere>,
    i: int,
    bi: int,
    bt: int,
) -> (int, int)
    decreases spheres.len() - i,
{
    if i < 0 || i >= spheres.len() {
        (bi, bt)
    } else if cand_disc_s(o, d, spheres[i]) < 0 {
        trace_loop_s(o, d, spheres, i + 1, bi, bt)
    } else {
        let t = cand_t_s(o, d, spheres[i]);
        if 0 < t && t < bt {
            trace_loop_s(o, d, spheres, i + 1, i, t)
        } else {
            trace_loop_s(o, d, spheres, i + 1, bi, bt)
        }
    }
}

/// The best hit over the whole scene: index `-1` and the miss sentinel when
/// every sphere misses.
pub open spec fn trace_s(o: V3i, d: V3i, spheres: Seq<Sphere>) -> (int, int) {
    trace_loop_s(o, d, spheres, 0, -1, T_FAR as int)
}

/// Whether the ray misses every sphere of the scene.
pub open spec fn misses_s(o: V3i, d: V3i, spheres: Seq<Sphere>) -> bool {
    trace_s(o, d, spheres).0 == -1
}

/// The point where the ray meets the sphere, relative to the sphere's
/// center.
pub open spec fn hit_rel_s(o: V3i, d: V3i, sp: Sphere, t: int) -> V3i {
    add3_s(sub3_s(o, sp.position.m()), scale3_s(d, t))
}

/// The outward surface normal at the hit: the hit point relative to the
/// center, normalized.
pub open spec fn hit_normal_s(o: V3i, d: V3i, sp: Sphere, t: int) -> V3i {
    unit_or_zero_s(hit_rel_s(o, d, sp, t))
}

/// The hit point in world space.
pub open spec fn hit_world_s(o: V3i, d: V3i, sp: Sphere, t: int) -> V3i {
    add3_s(hit_rel_s(o, d, sp, t), sp.position.m())
}

/// The Lambertian term of a hit: the normal against the light direction,
/// floored at zero.
pub open spec fn lambert_s(normal: V3i) -> int {
    let l = dot_s(normal, neg3_s(light_dir_s()));
    if l > 0 {
        l
    } else {
        0
    }
}

/// Origin-magnitude budget of a bounce with `k` bounces remaining.  Each
/// bounce can move the origin by at most the longest candidate root its
/// budget allows, which [`lemma_cand_t_bound`] caps at a constant multiple
/// of the budget — so the budget grows by a factor of 64 per bounce.
pub open spec fn ocap(k: int) -> int {
    if k >= 5 {
        COORD_MAX as int
    } else if k == 4 {
        0x8000_0000
    } else if k == 3 {
        0x20_0000_0000
    } else if k == 2 {
        0x800_0000_0000
    } else if k == 1 {
        0x2_0000_0000_0000
    } else {
        0x80_0000_0000_0000
    }
}

/// Under the integrator's budget, no candidate root can grow beyond a small
/// multiple of the origin bound: the quadratic's coefficients, discriminant
/// and root are all bounded by the geometry that produced them.  In
/// particular every candidate stays far below the miss sentinel, so the
/// trace fold reports exactly the minimum positive root.
pub proof fn lemma_cand_t_bound(o: V3i, d: V3i, sp: Sphere, ob: int)
    requires
        bounded3(o, ob),
        bounded3(d, ONE as int),
        sphere_wf(sp),
        COORD_MAX as int <= ob <= 0x80_0000_0000_0000,
        cand_disc_s(o, d, sp) >= 0,
    ensures
        mag(cand_t_s(o, d, sp)) <= 24 * ob + 24 * (COORD_MAX as int),
{
    let ocb = ob + COORD_MAX as int;
    let oc = sub3_s(o, sp.position.m());
    assert(bounded3(oc, ocb));
    let a = dot_s(d, d);
    let b = 2 * dot_s(oc, d);
    let dq = dot_s(oc, oc);
    let r2 = fx_mul_s(sp.radius as int, sp.radius as int);
    let disc = cand_disc_s(o, d, sp);
    lemma_dot_bound(d, d, ONE as int, ONE as int);
    assert(mag(a) <= 0x30000);
    lemma_dot_bound(oc, d, ocb, ONE as int);
    assert(3 * (ocb * (ONE as int)) == (SCALE as int) * (3 * ocb)) by (nonlinear_arith);
    lemma_div_multiples_vanish(3 * ocb, SCALE as int);
    assert(mag(dot_s(oc, d)) <= 3 * ocb);
    assert(mag(b) <= 6 * ocb);
    lemma_dot_bound(oc, oc, ocb, ocb);
    let dqb = 3 * (ocb * ocb) / (SCALE as int);
    lemma_mag_mul_bound(sp.radius as int, sp.radius as int, COORD_MAX as int, COORD_MAX as int);
    lemma_trunc_div_mag((sp.radius as int) * (sp.radius as int), SCALE as int);
    lemma_div_is_ordered(
        mag((sp.radius as int) * (sp.radius as int)),
        0x4_0000_0000_0000int,
        SCALE as int,
    );
    assert(mag(r2) <= 0x4_0000_0000int);
    assert(mag(dq - r2) <= dqb + 0x4_0000_0000int);
    lemma_mag_mul_bound(b, b, 6 * ocb, 6 * ocb);
    assert((6 * ocb) * (6 * ocb) == 36 * (ocb * ocb)) by (nonlinear_arith);
    lemma_mag_mul_bound(a, dq - r2, 0x30000int, dqb + 0x4_0000_0000int);
    lemma_fundamental_div_mod(3 * (ocb * ocb), SCALE as int);
    lemma_mod_bound(3 * (ocb * ocb), SCALE as int);
    assert((SCALE as int) * dqb <= 3 * (ocb * ocb));
    assert(0x30000int * (dqb + 0x4_0000_0000int) <= 9 * (ocb * ocb) + 0xc_0000_0000_0000int);
    assert(ocb * ocb >= 0x10_0000_0000_0000int) by (nonlinear_arith)
        requires
            ocb >= 0x400_0000int,
    ;
    assert(mag(disc) <= 100 * (ocb * ocb));
    lemma_isqrt_exists(disc);
    let sq = isqrt_s(disc);
    if sq > 10 * ocb {
        assert(sq * sq > 100 * (ocb * ocb)) by (nonlinear_arith)
            requires
                sq > 10 * ocb,
                ocb >= 0,
        ;
        assert(false);
    }
    let u = trunc_div(-b - sq, 2);
    assert(mag(-b - sq) <= 16 * ocb);
    lemma_trunc_div_mag(-b - sq, 2);
    lemma_div_is_ordered(mag(-b - sq), 16 * ocb, 2);
    lemma_div_multiples_vanish(8 * ocb, 2);
    assert(16 * ocb == 2 * (8 * ocb)) by (nonlinear_arith);
    assert(mag(u) <= 8 * ocb);
    lemma_mag_mul_bound(u, a, 8 * ocb, 0x30000int);
    lemma_trunc_div_mag(u * a, SCALE as int);
    assert((8 * ocb) * 0x30000int == (SCALE as int) * (24 * ocb)) by (nonlinear_arith);
    lemma_div_is_ordered(mag(u * a), (SCALE as int) * (24 * ocb), SCALE as int);
    lemma_div_multiples_vanish(24 * ocb, SCALE as int);
    assert(mag(cand_t_s(o, d, sp)) <= 24 * ocb);
}

/// The color gathered by the remaining bounces of one pixel, with the seed
/// the random sequence continues from.  A miss contributes the sky scaled by
/// the current attenuation and ends the walk; a hit contributes the
/// material's albedo scaled by its Lambertian term and the attenuation,
/// halves the attenuation, and follows the (roughness-perturbed, normalized)
/// reflection from just above the surface.
pub open spec fn bounce_s(
    spheres: Seq<Sphere>,
    mats: Seq<Material>,
    o: V3i,
    d: V3i,
    mult: int,
    seed: u32,
    k: nat,
) -> (V4i, u32)
    decreases k,
{
    if k == 0 {
        (V4i { x: 0, y: 0, z: 0, w: 0 }, seed)
    } else {
        let (bi, bt) = trace_s(o, d, spheres);
        if bi == -1 {
            (scale4_s(sky4_s(), mult), seed)
        } else {
            let sp = spheres[bi];
            let mat = mats[sp.material_index as int];
            let normal = hit_normal_s(o, d, sp, bt);
            let li = lambert_s(normal);
            let sphere_color = scale3_s(scale3_s(mat.albedo.m(), li), mult);
            let contribution = V4i { x: sphere_color.x, y: sphere_color.y, z: sphere_color.z, w: 0 };
            let o2 = add3_s(hit_world_s(o, d, sp, bt), scale3_s(normal, SURFACE_EPS as int));
            let refl = reflect_s(d, normal);
            let (d2, seed2): (V3i, u32) = if mat.roughness > 0 {
                (
                    add3_s(
                        refl,
                        scale3_s(
                            V3i {
                                x: signed_fx_of(wang_hash(seed)),
                                y: signed_fx_of(wang_hash(wang_hash(seed))),
                                z: signed_fx_of(wang_hash(wang_hash(wang_hash(seed)))),
                            },
                            mat.roughness as int,
                        ),
                    ),
                    wang_hash(wang_hash(wang_hash(seed))),
                )
            } else {
                (refl, seed)
            };
            let (rest, seed3) = bounce_s(
                spheres,
                mats,
                o2,
                unit_or_zero_s(d2),
                fx_mul_s(mult, HALF as int),
                seed2,
                (k - 1) as nat,
            );
            (add4_s(contribution, rest), seed3)
        }
    }
}

/// The full shading estimate of one pixel: full alpha plus everything the
/// bounce walk gathers, starting with unit attenuation and the pixel's seed.
pub open spec fn per_pixel_s(
    spheres: Seq<Sphere>,
    mats: Seq<Material>,
    o: V3i,
    d: V3i,
    seed: u32,
) -> V4i {
    add4_s(neutral4_s(), bounce_s(spheres, mats, o, d, ONE as int, seed, MAX_BOUNCES as nat).0)
}

/// The best index a trace fold can report is either the miss marker or the
/// index of a sphere.
pub proof fn lemma_trace_loop_shape(o: V3i, d: V3i, spheres: Seq<Sphere>, i: int, bi: int, bt: int)
    requires
        0 <= i,
        -1 <= bi < spheres.len(),
    ensures
        -1 <= trace_loop_s(o, d, spheres, i, bi, bt).0 < spheres.len(),
    decreases spheres.len() - i,
{
    if i < spheres.len() {
        if cand_disc_s(o, d, spheres[i]) < 0 {
            lemma_trace_loop_shape(o, d, spheres, i + 1, bi, bt);
        } else {
            let t = cand_t_s(o, d, spheres[i]);
            if 0 < t && t < bt {
                lemma_trace_loop_shape(o, d, spheres, i + 1, i, t);
            } else {
                lemma_trace_loop_shape(o, d, spheres, i + 1, bi, bt);
            }
        }
    }
}

/// Once the fold carries a hit it never goes back to the miss marker.
proof fn lemma_trace_loop_keeps_hit(o: V3i, d: V3i, spheres: Seq<Sphere>, i: int, bi: int, bt: int)
    requires
        0 <= bi,
    ensures
        trace_loop_s(o, d, spheres, i, bi, bt).0 >= 0,
    decreases spheres.len() - i,
{
    if 0 <= i < spheres.len() {
        if cand_disc_s(o, d, spheres[i]) < 0 {
            lemma_trace_loop_keeps_hit(o, d, spheres, i + 1, bi, bt);
        } else {
            let t = cand_t_s(o, d, spheres[i]);
            if 0 < t && t < bt {
                lemma_trace_loop_keeps_hit(o, d, spheres, i + 1, i, t);
            } else {
                lemma_trace_loop_keeps_hit(o, d, spheres, i + 1, bi, bt);
            }
        }
    }
}

/// The trace misses exactly when no sphere offers a positive root: within
/// the integrator's budget every candidate root sits far below the miss
/// sentinel, so the sentinel never swallows a real hit.
pub proof fn lemma_trace_miss_iff(o: V3i, d: V3i, spheres: Seq<Sphere>)
    requires
        bounded3(o, ocap(0)),
        bounded3(d, ONE as int),
        forall|i: int| 0 <= i < spheres.len() ==> sphere_wf(#[trigger] spheres[i]),
    ensures
        misses_s(o, d, spheres) <==> (forall|i: int|
            0 <= i < spheres.len() ==> (cand_disc_s(o, d, spheres[i]) < 0 || cand_t_s(
                o,
                d,
                spheres[i],
            ) <= 0)),
{
    lemma_trace_loop_miss(o, d, spheres, 0);
}

/// The suffix form of [`lemma_trace_miss_iff`]: the fold started at index
/// `i` with the miss marker stays a miss exactly when no sphere from `i` on
/// offers a positive root.
proof fn lemma_trace_loop_miss(o: V3i, d: V3i, spheres: Seq<Sphere>, i: int)
    requires
        0 <= i,
        bounded3(o, ocap(0)),
        bounded3(d, ONE as int),
        forall|j: int| 0 <= j < spheres.len() ==> sphere_wf(#[trigger] spheres[j]),
    ensures
        trace_loop_s(o, d, spheres, i, -1, T_FAR as int).0 == -1 <==> (forall|j: int|
            i <= j < spheres.len() ==> (cand_disc_s(o, d, spheres[j]) < 0 || cand_t_s(
                o,
                d,
                spheres[j],
            ) <= 0)),
    decreases spheres.len() - i,
{
    if i < spheres.len() {
        if cand_disc_s(o, d, spheres[i]) < 0 {
            lemma_trace_loop_miss(o, d, spheres, i + 1);
        } else {
            let t = cand_t_s(o, d, spheres[i]);
            lemma_cand_t_bound(o, d, spheres[i], ocap(0));
            if 0 < t {
                assert(t < T_FAR);
                lemma_trace_loop_keeps_hit(o, d, spheres, i + 1, i, t);
            } else {
                lemma_trace_loop_miss(o, d, spheres, i + 1);
            }
        }
    }
}

/// Whatever best hit the trace fold reports, its distance is the positive
/// root formula of the winning sphere, whose discriminant is non-negative.
pub proof fn lemma_trace_loop_winner(
    o: V3i,
    d: V3i,
    spheres: Seq<Sphere>,
    i: int,
    bi: int,
    bt: int,
)
    requires
        0 <= i,
        -1 <= bi < spheres.len(),
        bi >= 0 ==> bt == cand_t_s(o, d, spheres[bi]) && cand_disc_s(o, d, spheres[bi]) >= 0 && 0
            < bt,
    ensures
        ({
            let (ri, rt) = trace_loop_s(o, d, spheres, i, bi, bt);
            &&& -1 <= ri < spheres.len()
            &&& (ri >= 0 ==> rt == cand_t_s(o, d, spheres[ri]) && cand_disc_s(o, d, spheres[ri])
                >= 0 && 0 < rt)
        }),
    decreases spheres.len() - i,
{
    if i < spheres.len() {
        if cand_disc_s(o, d, spheres[i]) < 0 {
            lemma_trace_loop_winner(o, d, spheres, i + 1, bi, bt);
        } else {
            let t = cand_t_s(o, d, spheres[i]);
            if 0 < t && t < bt {
                lemma_trace_loop_winner(o, d, spheres, i + 1, i, t);
            } else {
                lemma_trace_loop_winner(o, d, spheres, i + 1, bi, bt);
            }
        }
    }
}

/// Every color channel one bounce walk can gather lies between zero and the
/// per-bounce budget times the number of bounces, provided the materials
/// follow the non-negative albedo convention.  Neither the ray nor the seed
/// matters: the bound comes from the unit normal, the unit-interval
/// attenuation and roughness, and the bounded albedo alone.
pub proof fn lemma_bounce_range(
    spheres: Seq<Sphere>,
    mats: Seq<Material>,
    o: V3i,
    d: V3i,
    mult: int,
    seed: u32,
    k: nat,
)
    requires
        forall|j: int| 0 <= j < mats.len() ==> material_wf(#[trigger] mats[j]),
        materials_nonneg(mats),
        forall|i: int|
            0 <= i < spheres.len() ==> (#[trigger] spheres[i]).material_index < mats.len(),
        0 <= mult <= ONE,
    ensures
        ({
            let c = bounce_s(spheres, mats, o, d, mult, seed, k).0;
            &&& 0 <= c.x <= k * 0x1000_0000
            &&& 0 <= c.y <= k * 0x1000_0000
            &&& 0 <= c.z <= k * 0x1000_0000
            &&& 0 <= c.w <= k * 0x1000_0000
        }),
    decreases k,
{
    if k == 0 {
        assert(0int * 0x1000_0000 == 0) by (nonlinear_arith);
    } else {
        lemma_trace_loop_winner(o, d, spheres, 0, -1, T_FAR as int);
        let (bi, bt) = trace_s(o, d, spheres);
        if bi == -1 {
            lemma_scale4_nonneg_bounded(sky4_s(), mult);
        } else {
            let sp = spheres[bi];
            let mat = mats[sp.material_index as int];
            let normal = hit_normal_s(o, d, sp, bt);
            lemma_unit_or_zero_s_bounded(hit_rel_s(o, d, sp, bt));
            assert((-65536int) * (-65536int) == 0x1_0000_0000int) by (nonlinear_arith);
            let diag = V3i { x: -(ONE as int), y: -(ONE as int), z: -(ONE as int) };
            lemma_unit_or_zero_s_bounded(diag);
            assert(bounded3(light_dir_s(), SCALE as int));
            let li = lambert_s(normal);
            lemma_dot_bound(normal, neg3_s(light_dir_s()), ONE as int, ONE as int);
            assert(0 <= li <= 0x30000);
            lemma_scale3_nonneg_bounded(mat.albedo.m(), li, COORD_MAX as int, 0x30000int,
                0x600_0000int);
            let sphere_color = scale3_s(mat.albedo.m(), li);
            lemma_scale3_nonneg_bounded(sphere_color, mult, 0x600_0000int, ONE as int,
                0x600_0000int);
            lemma_mag_mul(mult, HALF as int);
            lemma_mag_mul_bound(mult, HALF as int, ONE as int, HALF as int);
            lemma_trunc_div_mag(mult * (HALF as int), SCALE as int);
            lemma_div_is_ordered(mag(mult * (HALF as int)), 0x8000_0000int, SCALE as int);
            lemma_trunc_div_nonneg(mult * (HALF as int), SCALE as int);
            lemma_bounce_range(
                spheres,
                mats,
                add3_s(hit_world_s(o, d, sp, bt), scale3_s(normal, SURFACE_EPS as int)),
                unit_or_zero_s(
                    if mat.roughness > 0 {
                        add3_s(
                            reflect_s(d, normal),
                            scale3_s(
                                V3i {
                                    x: signed_fx_of(wang_hash(seed)),
                                    y: signed_fx_of(wang_hash(wang_hash(seed))),
                                    z: signed_fx_of(wang_hash(wang_hash(wang_hash(seed)))),
                                },
                                mat.roughness as int,
                            ),
                        )
                    } else {
                        reflect_s(d, normal)
                    },
                ),
                fx_mul_s(mult, HALF as int),
                if mat.roughness > 0 {
                    wang_hash(wang_hash(wang_hash(seed)))
                } else {
                    seed
                },
                (k - 1) as nat,
            );
        }
    }
}

/// A scaled vector with non-negative components and factor stays
/// non-negative and within the scaled cap.
pub proof fn lemma_scale3_nonneg_bounded(v: V3i, m: int, bv: int, bm: int, cap: int)
    requires
        0 <= v.x <= bv,
        0 <= v.y <= bv,
        0 <= v.z <= bv,
        0 <= m <= bm,
        0 <= cap,
        bv * bm <= cap * (SCALE as int),
    ensures
        ({
            let r = scale3_s(v, m);
            0 <= r.x <= cap && 0 <= r.y <= cap && 0 <= r.z <= cap
        }),
{
    lemma_scale3_bound_by(v, m, bv, bm, cap);
    lemma_mag_mul(v.x, m);
    lemma_mag_mul(v.y, m);
    lemma_mag_mul(v.z, m);
    lemma_trunc_div_nonneg(v.x * m, SCALE as int);
    lemma_trunc_div_nonneg(v.y * m, SCALE as int);
    lemma_trunc_div_nonneg(v.z * m, SCALE as int);
}

/// The sky scaled by a unit-interval attenuation stays within the unit
/// interval on every channel.
pub proof fn lemma_scale4_nonneg_bounded(v: V4i, m: int)
    requires
        0 <= v.x <= ONE as int,
        0 <= v.y <= ONE as int,
        0 <= v.z <= ONE as int,
        0 <= v.w <= ONE as int,
        0 <= m <= ONE as int,
    ensures
        ({
            let r = scale4_s(v, m);
            0 <= r.x <= ONE as int && 0 <= r.y <= ONE as int && 0 <= r.z <= ONE as int && 0 <= r.w
                <= ONE as int
        }),
{
    lemma_scale4_bound_by(v, m, ONE as int, ONE as int, ONE as int);
    lemma_mag_mul(v.x, m);
    lemma_mag_mul(v.y, m);
    lemma_mag_mul(v.z, m);
    lemma_mag_mul(v.w, m);
    lemma_trunc_div_nonneg(v.x * m, SCALE as int);
    lemma_trunc_div_nonneg(v.y * m, SCALE as int);
    lemma_trunc_div_nonneg(v.z * m, SCALE as int);
    lemma_trunc_div_nonneg(v.w * m, SCALE as int);
}

/// The per-scene sample range: under the non-negative albedo convention,
/// every channel of every sample the integrator can produce lies between
/// zero and a fixed budget.  Together with [`lemma_average_contracts`], whose
/// sample bound this supplies, the displayed average of a static scene moves
/// by at most that budget over the frame count plus one per frame: the
/// progressive estimate settles.
pub proof fn lemma_sample_range(scene: Scene, o: V3i, d: V3i, seed: u32)
    requires
        scene_wf(scene),
        materials_nonneg(scene.materials@),
    ensures
        ({
            let c = per_pixel_s(scene.spheres@, scene.materials@, o, d, seed);
            &&& 0 <= c.x <= (ONE as int) + 5 * 0x1000_0000
            &&& 0 <= c.y <= (ONE as int) + 5 * 0x1000_0000
            &&& 0 <= c.z <= (ONE as int) + 5 * 0x1000_0000
            &&& 0 <= c.w <= (ONE as int) + 5 * 0x1000_0000
        }),
{
    lemma_bounce_range(scene.spheres@, scene.materials@, o, d, ONE as int, seed, 5);
}

/// The renderer: the canvas it fills, the accumulation buffer, the frame
/// index of the running average, and its settings.
pub struct RaytracingRenderer {
    pub canvas: Canvas,
    pub accumulation_data: Vec<Vec4>,
    pub frame_index: usize,
    pub settings: RendererSettings,
}

/// The settings surface an embedding application persists and feeds back:
/// the core consumes the execution switch and the canvas dimensions, the
/// rest is display-side state carried along.
pub struct State {
    pub use_linear_filter: bool,
    pub use_threads: bool,
    pub canvas_width: u32,
    pub canvas_height: u32,
    pub sphere_color: [i128; 4],
    pub last_render_time_ms: u64,
    pub error_msg: String,
}

impl Default for State {
    /// A 400-by-270 single-threaded configuration with a white sphere color.
    fn default() -> (r: State)
        ensures
            r.use_linear_filter == false,
            r.use_threads == false,
            r.canvas_width == 400,
            r.canvas_height == 270,
            r.sphere_color == [ONE, ONE, ONE, ONE],
            r.last_render_time_ms == 0,
            r.error_msg@ == Seq::<char>::empty(),
    {
        State {
            use_linear_filter: false,
            use_threads: false,
            canvas_width: 400,
            canvas_height: 270,
            sphere_color: [ONE, ONE, ONE, ONE],
            last_render_time_ms: 0,
            error_msg: String::new(),
        }
    }
}

/// A timing probe for the frame diagnostic.
/// Relies on `std::time::Instant`, carried opaquely.
#[verifier::external_type_specification]
#[verifier::external_body]
pub struct ExInstant(std::time::Instant);

/// Relies on `std::time::Instant::now`: a clock reading, about which nothing
/// is assumed.
pub assume_specification[ std::time::Instant::now ]() -> std::time::Instant
;

/// Relies on `std::time::Instant::elapsed`: the time since the reading,
/// about which nothing is assumed.
pub assume_specification[ std::time::Instant::elapsed ](
    i: &std::time::Instant,
) -> core::time::Duration
;

/// Relies on `core::time::Duration::as_millis`: the duration in whole
/// milliseconds, about which nothing is assumed.
pub assume_specification[ core::time::Duration::as_millis ](d: &core::time::Duration) -> u128
;

/// Magnitude bound on every accumulator channel after `n` samples: the
/// neutral value plus `n` bounded samples.
pub open spec fn acc_cap(n: int) -> int {
    (ONE as int) + n * (SAMPLE_MAX as int)
}

/// The renderer's well-formedness: buffers sized to the canvas, the frame
/// index in range, and — except right before the clear that a frame index of
/// one triggers — every accumulator channel within the bound its sample
/// count allows.
pub open spec fn renderer_wf(r: RaytracingRenderer) -> bool {
    &&& r.canvas.width <= VIEWPORT_MAX
    &&& r.canvas.height <= VIEWPORT_MAX
    &&& r.canvas.data@.len() == r.canvas.width * r.canvas.height
    &&& r.accumulation_data@.len() == r.canvas.data@.len()
    &&& 1 <= r.frame_index <= 0x4000_0000
    &&& (r.frame_index == 1 || forall|i: int|
        0 <= i < r.accumulation_data@.len() ==> bounded4(
            (#[trigger] r.accumulation_data@[i]).m(),
            acc_cap(r.frame_index as int),
        ))
}

/// The sample the integrator adds to pixel `(x, y)` this frame.
pub open spec fn sample_of(scene: Scene, camera: Camera, fi: u32, x: int, y: int) -> V4i {
    per_pixel_s(
        scene.spheres@,
        scene.materials@,
        camera.position.m(),
        camera.ray_directions@[x + y * (camera.viewport_width as int)].m(),
        pixel_seed_s(x as u32, y as u32, camera.viewport_width, fi),
    )
}

/// The accumulator a frame starts from: freshly neutral on the first frame
/// of an average, the running sum afterwards.
pub open spec fn base_accum_s(r: RaytracingRenderer, i: int) -> V4i {
    if r.frame_index == 1 {
        neutral4_s()
    } else {
        r.accumulation_data@[i].m()
    }
}

/// The accumulator of pixel `i` after the frame: its base plus the new
/// sample.
pub open spec fn accum_after_s(r: RaytracingRenderer, scene: Scene, camera: Camera, i: int) -> V4i {
    add4_s(
        base_accum_s(r, i),
        sample_of(
            scene,
            camera,
            r.frame_index as u32,
            i % (r.canvas.width as int),
            i / (r.canvas.width as int),
        ),
    )
}

/// The packed pixel the frame displays: the accumulator divided by the frame
/// index, clamped and packed.
pub open spec fn canvas_after_s(r: RaytracingRenderer, scene: Scene, camera: Camera, i: int) -> u32 {
    pack_s(clamp4_s(div4_int_s(accum_after_s(r, scene, camera, i), r.frame_index as int)))
}

/// One rendered row is correct: its accumulators extend the base buffer by
/// the row's samples, its pixels display them, and its channels stay within
/// the budget of one more sample.
pub open spec fn row_ok(
    scene: Scene,
    camera: Camera,
    base: Seq<Vec4>,
    fi: u32,
    y: int,
    row: (Vec<u32>, Vec<Vec4>),
) -> bool {
    let w = camera.viewport_width as int;
    &&& row.0@.len() == w
    &&& row.1@.len() == w
    &&& forall|x: int|
        0 <= x < w ==> (#[trigger] row.1@[x]).m() == add4_s(
            base[y * w + x].m(),
            sample_of(scene, camera, fi, x, y),
        )
    &&& forall|x: int|
        0 <= x < w ==> #[trigger] row.0@[x] == pack_s(
            clamp4_s(div4_int_s(row.1@[x].m(), fi as int)),
        )
    &&& forall|x: int| 0 <= x < w ==> bounded4((#[trigger] row.1@[x]).m(), acc_cap(fi as int + 1))
}

impl RaytracingRenderer {
    /// Finds the closest sphere the ray hits, with the quadratic
    /// coefficients spelled out in the loop, and reports either the hit or a
    /// miss payload.
    pub fn trace_ray(ray: &Ray, scene: &Scene) -> (r: HitPayload)
        requires
            scene_wf(*scene),
            bounded3(ray.origin.m(), ocap(0)),
            bounded3(ray.direction.m(), ONE as int),
        ensures
            ({
                let (bi, bt) = trace_s(ray.origin.m(), ray.direction.m(), scene.spheres@);
                &&& -1 <= bi < scene.spheres@.len()
                &&& (bi == -1 <==> r.hit_distance == T_FAR)
                &&& (bi == -1 ==> r.object_index == 0 && r.world_position.m() == (V3i {
                    x: 0,
                    y: 0,
                    z: 0,
                }) && r.world_normal.m() == (V3i { x: 0, y: 0, z: 0 }))
                &&& (bi >= 0 ==> {
                    &&& r.object_index == bi
                    &&& bi < scene.spheres@.len()
                    &&& r.hit_distance == bt
                    &&& 0 < bt <= HIT_CAP
                    &&& bt == cand_t_s(ray.origin.m(), ray.direction.m(), scene.spheres@[bi])
                    &&& cand_disc_s(ray.origin.m(), ray.direction.m(), scene.spheres@[bi]) >= 0
                    &&& r.world_normal.m() == hit_normal_s(
                        ray.origin.m(),
                        ray.direction.m(),
                        scene.spheres@[bi],
                        bt,
                    )
                    &&& bounded3(r.world_normal.m(), ONE as int)
                    &&& r.world_position.m() == hit_world_s(
                        ray.origin.m(),
                        ray.direction.m(),
                        scene.spheres@[bi],
                        bt,
                    )
                })
            }),
    {
        let ghost o = ray.origin.m();
        let ghost dm = ray.direction.m();
        let ghost spheres = scene.spheres@;
        let nsph: usize = scene.spheres.len();
        let mut closest_sphere_index: usize = usize::MAX;
        let mut hit_distance: i128 = T_FAR;
        let mut i: usize = 0;
        while i < nsph
            invariant
                scene_wf(*scene),
                bounded3(o, ocap(0)),
                bounded3(dm, ONE as int),
                o == ray.origin.m(),
                dm == ray.direction.m(),
                spheres == scene.spheres@,
                nsph == spheres.len(),
                i <= nsph,
                closest_sphere_index == usize::MAX ==> hit_distance == T_FAR,
                closest_sphere_index != usize::MAX ==> closest_sphere_index < i && 0 < hit_distance
                    <= HIT_CAP && hit_distance == cand_t_s(
                    o,
                    dm,
                    spheres[closest_sphere_index as int],
                ) && cand_disc_s(o, dm, spheres[closest_sphere_index as int]) >= 0,
                trace_loop_s(
                    o,
                    dm,
                    spheres,
                    i as int,
                    if closest_sphere_index == usize::MAX {
                        -1int
                    } else {
                        closest_sphere_index as int
                    },
                    hit_distance as int,
                ) == trace_s(o, dm, spheres),
            decreases nsph - i,
        {
            let sp: Sphere = scene.spheres[i];
            let oc: Vec3 = ray.origin.sub(&sp.position);
            proof {
                assert(bounded3(oc.m(), 0x100_0000_0000_0000int));
                lemma_dot_bound(dm, dm, ONE as int, ONE as int);
                lemma_dot_bound(oc.m(), dm, 0x100_0000_0000_0000int, ONE as int);
                lemma_dot_bound(oc.m(), oc.m(), 0x100_0000_0000_0000int,
                    0x100_0000_0000_0000int);
                lemma_mag_mul_bound(sp.radius as int, sp.radius as int, COORD_MAX as int,
                    COORD_MAX as int);
                lemma_trunc_div_mag((sp.radius as int) * (sp.radius as int), SCALE as int);
                lemma_div_is_ordered(
                    mag((sp.radius as int) * (sp.radius as int)),
                    0x4_0000_0000_0000int,
                    SCALE as int,
                );
            }
            let a: i128 = ray.direction.dot(&ray.direction);
            let b: i128 = 2 * oc.dot(&ray.direction);
            let r2: i128 = fx_mul(sp.radius, sp.radius);
            let c: i128 = oc.dot(&oc) - r2;
            proof {
                lemma_mag_mul_bound(b as int, b as int, 0x600_0000_0000_0000int,
                    0x600_0000_0000_0000int);
                lemma_mag_mul_bound(a as int, c as int, 0x30000int,
                    0x4_0000_0000_0000_0000_0000_0000int);
            }
            let bb: i128 = b * b;
            let ac: i128 = a * c;
            let discriminant: i128 = bb - 4 * ac;
            if discriminant < 0 {
                i = i + 1;
                continue ;
            }
            let sq: u128 = isqrt(discriminant as u128);
            proof {
                if sq > 0x2000_0000_0000_0000u128 {
                    assert((sq as int) * (sq as int)
                        > 0x400_0000_0000_0000_0000_0000_0000_0000int) by (nonlinear_arith)
                        requires
                            sq > 0x2000_0000_0000_0000u128,
                    ;
                }
            }
            let u: i128 = div_int(-b - (sq as i128), 2);
            proof {
                lemma_mag_mul_bound(u as int, a as int, 0x2600_0000_0000_0000int, 0x30000int);
            }
            let closest_t: i128 = fx_mul(u, a);
            proof {
                lemma_cand_t_bound(o, dm, sp, 0x80_0000_0000_0000int);
            }
            if closest_t > 0 && closest_t < hit_distance {
                hit_distance = closest_t;
                closest_sphere_index = i;
            }
            i = i + 1;
        }
        proof {
            lemma_trace_loop_shape(o, dm, spheres, 0, -1, T_FAR as int);
        }
        if closest_sphere_index == usize::MAX {
            Self::miss(ray)
        } else {
            Self::closest_hit(ray, scene, closest_sphere_index, hit_distance)
        }
    }

    /// The payload of a confirmed hit: the hit point relative to the sphere,
    /// its normalization as the outward normal, and the world-space point.
    fn closest_hit(ray: &Ray, scene: &Scene, object_index: usize, hit_distance: i128) -> (r:
        HitPayload)
        requires
            scene_wf(*scene),
            bounded3(ray.origin.m(), ocap(0)),
            bounded3(ray.direction.m(), ONE as int),
            object_index < scene.spheres@.len(),
            0 < hit_distance <= HIT_CAP,
        ensures
            r.object_index == object_index,
            r.hit_distance == hit_distance,
            r.world_normal.m() == hit_normal_s(
                ray.origin.m(),
                ray.direction.m(),
                scene.spheres@[object_index as int],
                hit_distance as int,
            ),
            bounded3(r.world_normal.m(), ONE as int),
            r.world_position.m() == hit_world_s(
                ray.origin.m(),
                ray.direction.m(),
                scene.spheres@[object_index as int],
                hit_distance as int,
            ),
    {
        let closest_sphere: Sphere = scene.spheres[object_index];
        let origin: Vec3 = ray.origin.sub(&closest_sphere.position);
        proof {
            lemma_scale3_bound_by(ray.direction.m(), hit_distance as int, ONE as int,
                HIT_CAP as int, HIT_CAP as int);
        }
        let hit_point: Vec3 = origin.add(&ray.direction.scale(hit_distance));
        let normal: Vec3 = Vec3::unit_or_zero(&hit_point);
        HitPayload {
            hit_distance,
            world_position: hit_point.add(&closest_sphere.position),
            world_normal: normal,
            object_index,
        }
    }

    /// One bounce and everything after it: mirrors [`bounce_s`], threading
    /// the deterministic seed through the roughness perturbation.
    #[verifier::rlimit(100)]
    fn bounce(
        scene: &Scene,
        origin: Vec3,
        direction: Vec3,
        multiplier: i128,
        seed: &mut u32,
        remaining: u32,
    ) -> (c: Vec4)
        requires
            scene_wf(*scene),
            remaining <= MAX_BOUNCES,
            bounded3(origin.m(), ocap(remaining as int)),
            bounded3(direction.m(), ONE as int),
            0 <= multiplier <= ONE,
        ensures
            (c.m(), *final(seed)) == bounce_s(
                scene.spheres@,
                scene.materials@,
                origin.m(),
                direction.m(),
                multiplier as int,
                *old(seed),
                remaining as nat,
            ),
            bounded4(c.m(), (remaining as int) * 0x1000_0000),
        decreases remaining,
    {
        if remaining == 0 {
            return Vec4 { x: 0, y: 0, z: 0, w: 0 };
        }
        let ray = Ray { origin, direction };
        proof {
            assert(ocap(remaining as int) <= ocap(0));
        }
        let payload: HitPayload = Self::trace_ray(&ray, scene);
        if payload.hit_distance == T_FAR {
            let sky = Vec4 { x: 39322, y: 45875, z: 58982, w: ONE };
            proof {
                lemma_scale4_bound_by(sky.m(), multiplier as int, ONE as int, ONE as int,
                    ONE as int);
            }
            return sky.scale(multiplier);
        }
        let ghost bt = trace_s(origin.m(), direction.m(), scene.spheres@).1;
        let closest_sphere: Sphere = scene.spheres[payload.object_index];
        let sphere_material: Material = scene.materials[closest_sphere.material_index];
        let light_direction: Vec3 = Self::light_dir();
        let dlit: i128 = payload.world_normal.dot(&light_direction.neg());
        proof {
            lemma_dot_bound(payload.world_normal.m(), neg3_s(light_direction.m()), ONE as int,
                ONE as int);
        }
        let light_intensity: i128 = if dlit > 0 {
            dlit
        } else {
            0
        };
        proof {
            lemma_scale3_bound_by(sphere_material.albedo.m(), light_intensity as int,
                COORD_MAX as int, 0x30000int, 0x600_0000int);
        }
        let sphere_color: Vec3 = sphere_material.albedo.scale(light_intensity);
        proof {
            lemma_scale3_bound_by(sphere_color.m(), multiplier as int, 0x600_0000int, ONE as int,
                0x600_0000int);
        }
        let scaled_color: Vec3 = sphere_color.scale(multiplier);
        let contribution: Vec4 = Vec4::from_vec3(&scaled_color, 0);
        proof {
            lemma_mag_mul_bound(multiplier as int, HALF as int, ONE as int, HALF as int);
            lemma_trunc_div_mag((multiplier as int) * (HALF as int), SCALE as int);
            lemma_div_is_ordered(
                mag((multiplier as int) * (HALF as int)),
                0x8000_0000int,
                SCALE as int,
            );
            lemma_mag_mul(multiplier as int, HALF as int);
            lemma_div_is_ordered(0, (multiplier as int) * (HALF as int), SCALE as int);
        }
        let new_multiplier: i128 = fx_mul(multiplier, HALF);
        proof {
            let k = remaining as int;
            let bi = trace_s(origin.m(), direction.m(), scene.spheres@).0;
            assert(COORD_MAX as int <= ocap(k) <= 0x80_0000_0000_0000int);
            lemma_cand_t_bound(origin.m(), direction.m(), scene.spheres@[bi], ocap(k));
            assert(25 * ocap(k) + 24 * (COORD_MAX as int) + (SURFACE_EPS as int) <= ocap(k - 1));
            lemma_scale3_bound_by(ray.direction.m(), bt, ONE as int,
                24 * ocap(k) + 24 * (COORD_MAX as int), 24 * ocap(k) + 24 * (COORD_MAX as int));
            lemma_scale3_bound_by(payload.world_normal.m(), SURFACE_EPS as int, ONE as int,
                SURFACE_EPS as int, SURFACE_EPS as int);
        }
        let new_origin: Vec3 = payload.world_position.add(
            &payload.world_normal.scale(SURFACE_EPS),
        );
        let dn: i128 = direction.dot(&payload.world_normal);
        proof {
            lemma_dot_bound(direction.m(), payload.world_normal.m(), ONE as int, ONE as int);
            lemma_scale3_bound_by(payload.world_normal.m(), 2 * (dn as int), ONE as int,
                0x60000int, 0x60000int);
        }
        let reflected: Vec3 = direction.sub(&payload.world_normal.scale(2 * dn));
        let perturbed: Vec3 = if sphere_material.roughness > 0 {
            let rv: Vec3 = random_vec3fx(seed);
            proof {
                lemma_scale3_bound_by(rv.m(), sphere_material.roughness as int, ONE as int,
                    ONE as int, ONE as int);
            }
            reflected.add(&rv.scale(sphere_material.roughness))
        } else {
            reflected
        };
        let new_direction: Vec3 = Vec3::unit_or_zero(&perturbed);
        let rest: Vec4 = Self::bounce(
            scene,
            new_origin,
            new_direction,
            new_multiplier,
            seed,
            remaining - 1,
        );
        contribution.add(&rest)
    }

    /// The shading estimate of pixel `(x, y)` for one frame: the bounce walk
    /// is started from the camera's position along the pixel's cached ray
    /// direction, with the deterministic seed of the pixel and frame.
    pub fn per_pixel(x: u32, y: u32, width: u32, frame_index: u32, camera: &Camera, scene: &Scene)
        -> (r: Vec4)
        requires
            scene_wf(*scene),
            camera_wf(*camera),
            width == camera.viewport_width,
            camera.ray_directions@.len() == camera.viewport_width * camera.viewport_height,
            x < width,
            y < camera.viewport_height,
        ensures
            r.m() == per_pixel_s(
                scene.spheres@,
                scene.materials@,
                camera.position.m(),
                camera.ray_directions@[x as int + (y as int) * (width as int)].m(),
                pixel_seed_s(x, y, width, frame_index),
            ),
            bounded4(r.m(), SAMPLE_MAX as int),
    {
        let mut seed: u32 = pixel_seed(x, y, width, frame_index);
        proof {
            assert((y as int) * (width as int) + x < (camera.viewport_height as int) * (
            width as int)) by (nonlinear_arith)
                requires
                    0 <= x < width,
                    0 <= y < camera.viewport_height,
            ;
            assert((y as int) * (width as int) <= 4096 * 4096) by (nonlinear_arith)
                requires
                    0 <= y < camera.viewport_height <= VIEWPORT_MAX,
                    0 < width <= VIEWPORT_MAX,
            ;
            assert((camera.viewport_height as int) * (width as int) == (
            camera.viewport_width as int) * (camera.viewport_height as int))
                by (nonlinear_arith)
                requires
                    width == camera.viewport_width,
            ;
        }
        let idx: usize = (x + y * width) as usize;
        let direction: Vec3 = camera.ray_directions[idx];
        let walk: Vec4 = Self::bounce(scene, camera.position, direction, ONE, &mut seed,
            MAX_BOUNCES);
        let base = Vec4 { x: 0, y: 0, z: 0, w: ONE };
        base.add(&walk)
    }

    /// A renderer around a canvas, with a matching neutral accumulation
    /// buffer and the frame index at one.
    pub fn new(canvas: Canvas, settings: RendererSettings) -> (r: RaytracingRenderer)
        requires
            canvas.width <= VIEWPORT_MAX,
            canvas.height <= VIEWPORT_MAX,
            canvas.data@.len() == canvas.width * canvas.height,
        ensures
            renderer_wf(r),
            r.canvas == canvas,
            r.settings == settings,
            r.frame_index == 1,
            r.accumulation_data@.len() == canvas.data@.len(),
            forall|i: int|
                0 <= i < r.accumulation_data@.len() ==> (#[trigger] r.accumulation_data@[i]).m()
                    == neutral4_s(),
    {
        let n: usize = canvas.data.len();
        let accumulation_data: Vec<Vec4> = neutral_buffer(n);
        RaytracingRenderer { canvas, accumulation_data, frame_index: 1, settings }
    }

    /// Restarts the progressive average: the frame index returns to one and
    /// the accumulation buffer goes back to neutral.  Callers invoke this
    /// whenever the camera pose, the viewport or the scene changes, or the
    /// running average would blend stale geometry with new.
    pub fn reset_frame_index(&mut self)
        requires
            renderer_wf(*old(self)),
        ensures
            renderer_wf(*final(self)),
            final(self).frame_index == 1,
            final(self).canvas == old(self).canvas,
            final(self).settings == old(self).settings,
            final(self).accumulation_data@.len() == old(self).accumulation_data@.len(),
            forall|i: int|
                0 <= i < final(self).accumulation_data@.len() ==> (#[trigger] final(self).accumulation_data@[i]).m() == neutral4_s(),
    {
        self.frame_index = 1;
        let n: usize = self.accumulation_data.len();
        self.accumulation_data = neutral_buffer(n);
    }

    /// Adopts a new canvas size: both buffers are resized to the new pixel
    /// count (the canvas keeps its surviving prefix, the accumulation buffer
    /// returns to neutral).  A resize to the current size changes nothing at
    /// all.
    pub fn on_resize(&mut self, viewport_width: u32, viewport_height: u32)
        requires
            renderer_wf(*old(self)),
            0 < viewport_width <= VIEWPORT_MAX,
            0 < viewport_height <= VIEWPORT_MAX,
        ensures
            renderer_wf(*final(self)),
            viewport_width == old(self).canvas.width && viewport_height == old(self).canvas.height ==> *final(self) == *old(self),
            !(viewport_width == old(self).canvas.width && viewport_height == old(self).canvas.height) ==> {
                &&& final(self).canvas.width == viewport_width
                &&& final(self).canvas.height == viewport_height
                &&& final(self).canvas.data@.len() == viewport_width * viewport_height
                &&& forall|i: int|
                    0 <= i < final(self).canvas.data@.len()
                        ==> #[trigger] final(self).canvas.data@[i] == 0u32
                &&& final(self).accumulation_data@.len() == viewport_width * viewport_height
                &&& forall|i: int|
                    0 <= i < final(self).accumulation_data@.len() ==> (#[trigger] final(self).accumulation_data@[i]).m() == neutral4_s()
                &&& final(self).frame_index == old(self).frame_index
                &&& final(self).settings == old(self).settings
            },
    {
        if self.canvas.width == viewport_width && self.canvas.height == viewport_height {
            return ;
        }
        self.canvas.resize(viewport_width, viewport_height);
        let n: usize = self.canvas.data.len();
        self.accumulation_data = neutral_buffer(n);
    }

    /// Renders one frame: every pixel's new sample is blended into the
    /// accumulation buffer (freshly cleared when a new average starts), the
    /// running average is packed into the canvas, and the frame index
    /// advances when accumulation is on and returns to one when it is off.
    /// The rows are computed sequentially or by a fork-join pool over row
    /// chunks; the result is the same either way, as the contract states.
    /// Returns the wall-clock duration of the frame in milliseconds, a
    /// diagnostic with no effect on the result.
    pub fn render(&mut self, scene: &Scene, camera: &Camera) -> (elapsed_ms: u64)
        requires
            renderer_wf(*old(self)),
            scene_wf(*scene),
            camera_wf(*camera),
            camera.viewport_width == old(self).canvas.width,
            camera.viewport_height == old(self).canvas.height,
            camera.ray_directions@.len() == camera.viewport_width * camera.viewport_height,
            0 < old(self).canvas.width,
            0 < old(self).canvas.height,
            old(self).frame_index < 0x4000_0000,
        ensures
            renderer_wf(*final(self)),
            final(self).canvas.width == old(self).canvas.width,
            final(self).canvas.height == old(self).canvas.height,
            final(self).settings == old(self).settings,
            final(self).frame_index == (if old(self).settings.accumulate {
                old(self).frame_index + 1
            } else {
                1int
            }),
            final(self).accumulation_data@.len() == old(self).accumulation_data@.len(),
            final(self).canvas.data@.len() == old(self).canvas.data@.len(),
            forall|i: int|
                0 <= i < final(self).accumulation_data@.len() ==> (#[trigger] final(self).accumulation_data@[i]).m() == accum_after_s(*old(self), *scene, *camera, i),
            forall|i: int|
                0 <= i < final(self).canvas.data@.len() ==> #[trigger] final(self).canvas.data@[i]
                    == canvas_after_s(*old(self), *scene, *camera, i),
    {
        let start: std::time::Instant = std::time::Instant::now();
        let w: u32 = self.canvas.width;
        let h: u32 = self.canvas.height;
        if self.frame_index == 1 {
            let n: usize = self.accumulation_data.len();
            self.accumulation_data = neutral_buffer(n);
        }
        proof {
            let ghost fi0 = old(self).frame_index as int;
            assert(fi0 * (SAMPLE_MAX as int) >= 0) by (nonlinear_arith)
                requires
                    fi0 >= 0,
            ;
            assert forall|i: int| 0 <= i < self.accumulation_data@.len() implies (
            #[trigger] self.accumulation_data@[i]).m() == base_accum_s(*old(self), i)
                && bounded4(self.accumulation_data@[i].m(), acc_cap(old(self).frame_index as int)) by {
            }
        }
        let fi32: u32 = self.frame_index as u32;
        let rows: Vec<(Vec<u32>, Vec<Vec4>)> = if self.settings.use_threads {
            Self::par_render_rows(scene, camera, &self.accumulation_data, fi32, h)
        } else {
            let mut sequential_rows: Vec<(Vec<u32>, Vec<Vec4>)> = Vec::new();
            let mut y: u32 = 0;
            while y < h
                invariant
                    y <= h,
                    h == camera.viewport_height,
                    scene_wf(*scene),
                    camera_wf(*camera),
                    camera.ray_directions@.len() == camera.viewport_width
                        * camera.viewport_height,
                    self.accumulation_data@.len() == camera.viewport_width
                        * camera.viewport_height,
                    forall|i: int|
                        0 <= i < self.accumulation_data@.len() ==> bounded4(
                            (#[trigger] self.accumulation_data@[i]).m(),
                            acc_cap(fi32 as int),
                        ),
                    1 <= fi32 <= 0x4000_0000,
                    sequential_rows@.len() == y,
                    forall|yy: int|
                        0 <= yy < y ==> row_ok(
                            *scene,
                            *camera,
                            self.accumulation_data@,
                            fi32,
                            yy,
                            #[trigger] sequential_rows@[yy],
                        ),
                decreases h - y,
            {
                let row = Self::render_row(scene, camera, &self.accumulation_data, fi32, y);
                sequential_rows.push(row);
                y = y + 1;
            }
            sequential_rows
        };
        let ghost base = self.accumulation_data@;
        let mut new_pixels: Vec<u32> = Vec::new();
        let mut new_accum: Vec<Vec4> = Vec::new();
        let mut y: u32 = 0;
        while y < h
            invariant
                y <= h,
                w == camera.viewport_width,
                h == camera.viewport_height,
                0 < w <= VIEWPORT_MAX,
                0 < h <= VIEWPORT_MAX,
                base == self.accumulation_data@,
                base.len() == w * h,
                rows@.len() == h,
                1 <= fi32 <= 0x4000_0000,
                forall|yy: int|
                    0 <= yy < h ==> row_ok(*scene, *camera, base, fi32, yy, #[trigger] rows@[yy]),
                new_pixels@.len() == y * w,
                new_accum@.len() == y * w,
                forall|i: int|
                    0 <= i < new_pixels@.len() ==> #[trigger] new_pixels@[i] == pack_s(
                        clamp4_s(div4_int_s(new_accum@[i].m(), fi32 as int)),
                    ),
                forall|i: int|
                    0 <= i < new_accum@.len() ==> (#[trigger] new_accum@[i]).m() == add4_s(
                        base[i].m(),
                        sample_of(*scene, *camera, fi32, i % (w as int), i / (w as int)),
                    ) && bounded4(new_accum@[i].m(), acc_cap(fi32 as int + 1)),
            decreases h - y,
        {
            let row = &rows[y as usize];
            let mut x: u32 = 0;
            while x < w
                invariant
                    x <= w,
                    y < h,
                    w == camera.viewport_width,
                    h == camera.viewport_height,
                    0 < w <= VIEWPORT_MAX,
                    0 < h <= VIEWPORT_MAX,
                    base.len() == w * h,
                    1 <= fi32 <= 0x4000_0000,
                    row_ok(*scene, *camera, base, fi32, y as int, *row),
                    new_pixels@.len() == y * w + x,
                    new_accum@.len() == y * w + x,
                    forall|i: int|
                        0 <= i < new_pixels@.len() ==> #[trigger] new_pixels@[i] == pack_s(
                            clamp4_s(div4_int_s(new_accum@[i].m(), fi32 as int)),
                        ),
                    forall|i: int|
                        0 <= i < new_accum@.len() ==> (#[trigger] new_accum@[i]).m() == add4_s(
                            base[i].m(),
                            sample_of(*scene, *camera, fi32, i % (w as int), i / (w as int)),
                        ) && bounded4(new_accum@[i].m(), acc_cap(fi32 as int + 1)),
                decreases w - x,
            {
                proof {
                    lemma_fundamental_div_mod_converse(
                        (y as int) * (w as int) + x,
                        w as int,
                        y as int,
                        x as int,
                    );
                    assert((y as int) * (w as int) + w <= (h as int) * (w as int))
                        by (nonlinear_arith)
                        requires
                            0 <= y < h,
                            0 < w,
                    ;
                }
                new_pixels.push(row.0[x as usize]);
                new_accum.push(row.1[x as usize]);
                x = x + 1;
            }
            y = y + 1;
            proof {
                assert(((y - 1) as int) * (w as int) + w == (y as int) * (w as int))
                    by (nonlinear_arith);
            }
        }
        proof {
            assert((h as int) * (w as int) == (w as int) * (h as int)) by (nonlinear_arith);
        }
        self.canvas.data = new_pixels;
        self.accumulation_data = new_accum;
        if self.settings.accumulate {
            self.frame_index = self.frame_index + 1;
        } else {
            self.frame_index = 1;
        }
        let elapsed: u128 = start.elapsed().as_millis();
        #[verifier::truncate] (elapsed as u64)
    }

    /// Renders one row of the frame against the base accumulation buffer.
    fn render_row(scene: &Scene, camera: &Camera, base: &Vec<Vec4>, fi: u32, y: u32) -> (row: (
        Vec<u32>,
        Vec<Vec4>,
    ))
        requires
            scene_wf(*scene),
            camera_wf(*camera),
            camera.ray_directions@.len() == camera.viewport_width * camera.viewport_height,
            base@.len() == camera.viewport_width * camera.viewport_height,
            y < camera.viewport_height,
            1 <= fi <= 0x4000_0000,
            forall|i: int|
                0 <= i < base@.len() ==> bounded4((#[trigger] base@[i]).m(), acc_cap(fi as int)),
        ensures
            row_ok(*scene, *camera, base@, fi, y as int, row),
    {
        let w: u32 = camera.viewport_width;
        let mut pixels: Vec<u32> = Vec::new();
        let mut accums: Vec<Vec4> = Vec::new();
        let mut x: u32 = 0;
        while x < w
            invariant
                x <= w,
                w == camera.viewport_width,
                y < camera.viewport_height,
                scene_wf(*scene),
                camera_wf(*camera),
                camera.ray_directions@.len() == camera.viewport_width * camera.viewport_height,
                base@.len() == camera.viewport_width * camera.viewport_height,
                1 <= fi <= 0x4000_0000,
                forall|i: int|
                    0 <= i < base@.len() ==> bounded4(
                        (#[trigger] base@[i]).m(),
                        acc_cap(fi as int),
                    ),
                pixels@.len() == x,
                accums@.len() == x,
                forall|xx: int|
                    0 <= xx < x ==> (#[trigger] accums@[xx]).m() == add4_s(
                        base@[(y as int) * (w as int) + xx].m(),
                        sample_of(*scene, *camera, fi, xx, y as int),
                    ) && bounded4(accums@[xx].m(), acc_cap(fi as int + 1)),
                forall|xx: int|
                    0 <= xx < x ==> #[trigger] pixels@[xx] == pack_s(
                        clamp4_s(div4_int_s(accums@[xx].m(), fi as int)),
                    ),
            decreases w - x,
        {
            let color: Vec4 = Self::per_pixel(x, y, w, fi, camera, scene);
            proof {
                assert((y as int) * (w as int) + x < (camera.viewport_height as int) * (w as int))
                    by (nonlinear_arith)
                    requires
                        0 <= x < w,
                        0 <= y < camera.viewport_height,
                ;
                assert((camera.viewport_height as int) * (w as int) == (w as int) * (
                camera.viewport_height as int)) by (nonlinear_arith);
                assert((y as int) * (w as int) <= 4096 * 4096) by (nonlinear_arith)
                    requires
                        0 <= y <= 4096,
                        0 <= w <= 4096,
                ;
                assert(acc_cap(fi as int) + (SAMPLE_MAX as int) == acc_cap(fi as int + 1));
            }
            let idx: usize = (y * w + x) as usize;
            let cumulated: Vec4 = base[idx].add(&color);
            let averaged: Vec4 = cumulated.div_int(fi as i128);
            let packed: u32 = color_to_u32(&averaged.clamp01());
            pixels.push(packed);
            accums.push(cumulated);
            x = x + 1;
        }
        (pixels, accums)
    }

    /// Renders every row of the frame on a fork-join pool, one task per row.
    /// Relies on rayon's `into_par_iter` over a range with `map` and
    /// `collect`: an indexed parallel iterator collects into a vector in
    /// index order, so the result equals the sequential map over the rows.
    #[verifier::external_body]
    fn par_render_rows(scene: &Scene, camera: &Camera, base: &Vec<Vec4>, fi: u32, h: u32) -> (rows:
        Vec<(Vec<u32>, Vec<Vec4>)>)
        requires
            scene_wf(*scene),
            camera_wf(*camera),
            camera.ray_directions@.len() == camera.viewport_width * camera.viewport_height,
            base@.len() == camera.viewport_width * camera.viewport_height,
            h == camera.viewport_height,
            1 <= fi <= 0x4000_0000,
            forall|i: int|
                0 <= i < base@.len() ==> bounded4((#[trigger] base@[i]).m(), acc_cap(fi as int)),
        ensures
            rows@.len() == h,
            forall|y: int|
                0 <= y < h ==> row_ok(*scene, *camera, base@, fi, y, #[trigger] rows@[y]),
    {
        (0..h).into_par_iter().map(|y| Self::render_row(scene, camera, base, fi, y)).collect()
    }

    /// The fixed directional light.
    fn light_dir() -> (r: Vec3)
        ensures
            r.m() == light_dir_s(),
            bounded3(r.m(), ONE as int),
    {
        let v = Vec3 { x: -ONE, y: -ONE, z: -ONE };
        proof {
            assert((-65536int) * (-65536int) == 0x1_0000_0000int) by (nonlinear_arith);
        }
        Vec3::unit_vector(&v)
    }

    /// The payload of a miss: the sentinel distance and neutral fields.
    fn miss(_ray: &Ray) -> (r: HitPayload)
        ensures
            r.hit_distance == T_FAR,
            r.object_index == 0,
            r.world_position.m() == (V3i { x: 0, y: 0, z: 0 }),
            r.world_normal.m() == (V3i { x: 0, y: 0, z: 0 }),
    {
        HitPayload {
            hit_distance: T_FAR,
            world_position: Vec3 { x: 0, y: 0, z: 0 },
            world_normal: Vec3 { x: 0, y: 0, z: 0 },
            object_index: 0,
        }
    }
}

/// A primary ray that misses every sphere yields exactly the sky color at
/// unit attenuation: the estimate is full alpha plus the sky, whatever the
/// seed and the materials.
pub proof fn lemma_miss_gives_sky(
    spheres: Seq<Sphere>,
    mats: Seq<Material>,
    o: V3i,
    d: V3i,
    seed: u32,
)
    requires
        misses_s(o, d, spheres),
    ensures
        per_pixel_s(spheres, mats, o, d, seed) == add4_s(neutral4_s(), sky4_s()),
{
    assert(trunc_div(39322int * 65536, 65536) == 39322) by (nonlinear_arith);
    assert(trunc_div(45875int * 65536, 65536) == 45875) by (nonlinear_arith);
    assert(trunc_div(58982int * 65536, 65536) == 58982) by (nonlinear_arith);
    assert(trunc_div(65536int * 65536, 65536) == 65536) by (nonlinear_arith);
    assert(scale4_s(sky4_s(), ONE as int) == sky4_s());
}

/// Sequential and threaded execution produce the same frame: what a render
/// leaves in the accumulation buffer and on the canvas is one function of
/// the scene, the camera and the renderer's buffers and frame index — the
/// settings, including the execution switch, play no part in it.
pub proof fn lemma_threading_agnostic(
    r1: RaytracingRenderer,
    r2: RaytracingRenderer,
    scene: Scene,
    camera: Camera,
    i: int,
)
    requires
        r1.canvas.width == r2.canvas.width,
        r1.frame_index == r2.frame_index,
        r1.accumulation_data == r2.accumulation_data,
    ensures
        accum_after_s(r1, scene, camera, i) == accum_after_s(r2, scene, camera, i),
        canvas_after_s(r1, scene, camera, i) == canvas_after_s(r2, scene, camera, i),
{
}

/// Progressive accumulation settles: once every sample channel lies in
/// `[0, m]`, adding one more sample to a sum of `n` moves the displayed
/// average — the truncated quotient by the frame count — by at most
/// `m / (n + 1) + 1`.  The frame-to-frame pixel delta of a static scene
/// therefore shrinks at the rate of one over the frame count.
pub proof fn lemma_average_contracts(s: int, c: int, n: int, m: int)
    requires
        1 <= n,
        0 <= m,
        0 <= c <= m,
        0 <= s <= n * m,
    ensures
        mag(trunc_div(s + c, n + 1) - trunc_div(s, n)) <= m / (n + 1) + 1,
{
    let a = s / n;
    let a2 = (s + c) / (n + 1);
    vstd::arithmetic::div_mod::lemma_fundamental_div_mod(s, n);
    vstd::arithmetic::div_mod::lemma_mod_bound(s, n);
    let r = s % n;
    lemma_div_is_ordered(s, n * m, n);
    vstd::arithmetic::div_mod::lemma_div_multiples_vanish(m, n);
    lemma_div_is_ordered(0, s, n);
    assert(0 <= a <= m);
    // upper bound: a2 <= a + m / (n + 1) + 1
    let bup = n - 1 + m - a;
    vstd::arithmetic::div_mod::lemma_hoist_over_denominator(bup, a, (n + 1) as nat);
    assert(bup + a * (n + 1) == n * a + (n - 1) + m) by (nonlinear_arith)
        requires
            bup == n - 1 + m - a,
    ;
    assert(s + c <= n * a + (n - 1) + m);
    lemma_div_is_ordered(s + c, bup + a * (n + 1), n + 1);
    vstd::arithmetic::div_mod::lemma_hoist_over_denominator(m, 1, (n + 1) as nat);
    assert(1 * (n + 1) == n + 1) by (nonlinear_arith);
    lemma_div_is_ordered(bup, m + (n + 1), n + 1);
    assert(a2 <= a + m / (n + 1) + 1);
    // lower bound: a2 >= a - m / (n + 1) - 1
    vstd::arithmetic::div_mod::lemma_hoist_over_denominator(-m, a, (n + 1) as nat);
    assert(-m + a * (n + 1) <= n * a) by (nonlinear_arith)
        requires
            a <= m,
    ;
    assert(n * a <= s + c);
    lemma_div_is_ordered(-m + a * (n + 1), s + c, n + 1);
    vstd::arithmetic::div_mod::lemma_fundamental_div_mod(m, n + 1);
    vstd::arithmetic::div_mod::lemma_mod_bound(m, n + 1);
    let q = m / (n + 1);
    let rr = m % (n + 1);
    if rr == 0 {
        assert(-m == (-q) * (n + 1) + 0) by (nonlinear_arith)
            requires
                m == (n + 1) * q + rr,
                rr == 0,
        ;
        lemma_fundamental_div_mod_converse(-m, n + 1, -q, 0);
    } else {
        assert(-m == (-q - 1) * (n + 1) + ((n + 1) - rr)) by (nonlinear_arith)
            requires
                m == (n + 1) * q + rr,
        ;
        lemma_fundamental_div_mod_converse(-m, n + 1, -q - 1, (n + 1) - rr);
    }
    assert((-m) / (n + 1) >= -q - 1);
    assert(a2 >= a - q - 1);
}

} // verus!
