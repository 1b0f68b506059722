//! Deterministic random numbers: a seeded 32-bit integer hash and helpers
//! that draw fixed-point values from it.
//!
//! Every draw is a pure function of the mutable seed argument; there is no
//! hidden global state.  Threading an explicit seed through the integrator is
//! what makes sequential and parallel rendering produce identical images.

use vstd::prelude::*;
use crate::fx::ONE;
use crate::vec3::{bounded3, bounded4, V3i, V4i, Vec3, Vec4};

verus! {

/// Product of two 32-bit values, reduced modulo 2^32.
pub open spec fn mul_mod32(a: u32, b: u32) -> u32 {
    ((a as nat * b as nat) % 0x1_0000_0000nat) as u32
}

/// One application of the Wang integer hash to a 32-bit state.
pub open spec fn wang_hash(s0: u32) -> u32 {
    let s1 = (s0 ^ 61) ^ (s0 >> 16);
    let s2 = mul_mod32(s1, 9);
    let s3 = s2 ^ (s2 >> 4);
    let s4 = mul_mod32(s3, 0x27d4eb2d);
    s4 ^ (s4 >> 15)
}

/// Advances the seed by one Wang-hash step and returns the new state.
pub fn random_u32(seed: &mut u32) -> (r: u32)
    ensures
        *final(seed) == wang_hash(*old(seed)),
        r == *final(seed),
{
    let s1: u32 = (*seed ^ 61) ^ (*seed >> 16);
    let s2: u32 = s1.wrapping_mul(9);
    let s3: u32 = s2 ^ (s2 >> 4);
    let s4: u32 = s3.wrapping_mul(0x27d4eb2d);
    *seed = s4 ^ (s4 >> 15);
    *seed
}

/// Sum of two 32-bit values, reduced modulo 2^32.
pub open spec fn add_mod32(a: u32, b: u32) -> u32 {
    ((a as nat + b as nat) % 0x1_0000_0000nat) as u32
}

/// The fixed-point unit draw made from a hash state: its top sixteen bits,
/// a value in `[0, 1)`.
pub open spec fn unit_fx_of(s: u32) -> int {
    (s >> 16) as int
}

/// The signed fixed-point draw made from a hash state: a value in `[-1, 1)`.
pub open spec fn signed_fx_of(s: u32) -> int {
    2 * unit_fx_of(s) - ONE as int
}

/// Advances the seed and turns the new state into a fixed-point value in
/// `[0, 1)`.
pub fn random_fx(seed: &mut u32) -> (r: i128)
    ensures
        *final(seed) == wang_hash(*old(seed)),
        r == unit_fx_of(*final(seed)),
        0 <= r < ONE,
{
    let v: u32 = random_u32(seed);
    proof {
        assert((v >> 16) < 65536u32) by (bit_vector);
    }
    (v >> 16) as i128
}

/// Advances the seed and turns the new state into a fixed-point value in
/// `[-1, 1)`.
pub fn random_signed_fx(seed: &mut u32) -> (r: i128)
    ensures
        *final(seed) == wang_hash(*old(seed)),
        r == signed_fx_of(*final(seed)),
        -ONE <= r < ONE,
{
    let v: i128 = random_fx(seed);
    2 * v - ONE
}

/// Three successive signed draws bundled as a vector: each component lies in
/// `[-1, 1)`.
pub fn random_vec3fx(seed: &mut u32) -> (r: Vec3)
    ensures
        *final(seed) == wang_hash(wang_hash(wang_hash(*old(seed)))),
        r.m() == (V3i {
            x: signed_fx_of(wang_hash(*old(seed))),
            y: signed_fx_of(wang_hash(wang_hash(*old(seed)))),
            z: signed_fx_of(wang_hash(wang_hash(wang_hash(*old(seed))))),
        }),
        bounded3(r.m(), ONE as int),
{
    let x: i128 = random_signed_fx(seed);
    let y: i128 = random_signed_fx(seed);
    let z: i128 = random_signed_fx(seed);
    Vec3 { x, y, z }
}

/// Four successive signed draws bundled as a vector: each component lies in
/// `[-1, 1)`.
pub fn random_vec4fx(seed: &mut u32) -> (r: Vec4)
    ensures
        *final(seed) == wang_hash(wang_hash(wang_hash(wang_hash(*old(seed))))),
        r.m() == (V4i {
            x: signed_fx_of(wang_hash(*old(seed))),
            y: signed_fx_of(wang_hash(wang_hash(*old(seed)))),
            z: signed_fx_of(wang_hash(wang_hash(wang_hash(*old(seed))))),
            w: signed_fx_of(wang_hash(wang_hash(wang_hash(wang_hash(*old(seed)))))),
        }),
        bounded4(r.m(), ONE as int),
{
    let x: i128 = random_signed_fx(seed);
    let y: i128 = random_signed_fx(seed);
    let z: i128 = random_signed_fx(seed);
    let w: i128 = random_signed_fx(seed);
    Vec4 { x, y, z, w }
}

/// The seed a pixel's bounce sequence starts from: a mix of the pixel's
/// index in the canvas and the frame index.  Depending on nothing else, it
/// makes sequential and parallel rendering of a frame agree bit for bit.
pub open spec fn pixel_seed_s(x: u32, y: u32, width: u32, frame_index: u32) -> u32 {
    add_mod32(mul_mod32(y, width), x) ^ mul_mod32(frame_index, 0x9e3779b9)
}

/// Derives the deterministic per-pixel seed for one frame.
pub fn pixel_seed(x: u32, y: u32, width: u32, frame_index: u32) -> (r: u32)
    ensures
        r == pixel_seed_s(x, y, width, frame_index),
{
    y.wrapping_mul(width).wrapping_add(x) ^ frame_index.wrapping_mul(0x9e3779b9)
}

} // verus!
