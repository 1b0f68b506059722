//! Three- and four-component fixed-point vectors.
//!
//! `Vec3` carries directions, positions and linear RGB colors; `Vec4` carries
//! RGBA colors and the per-pixel accumulators.  Every executable operation is
//! specified exactly against a mathematical model (`V3i`, `V4i`) whose
//! components are unbounded integers, so the contracts of the integrator can
//! be stated without reference to machine arithmetic.

use vstd::prelude::*;
use vstd::arithmetic::div_mod::{lemma_div_is_ordered, lemma_div_multiples_vanish};
use vstd::arithmetic::mul::lemma_mul_inequality;
use crate::fx::{
    clamp01_s, fx_div, fx_mul, fx_mul_s, isqrt, isqrt_s, lemma_mag_mul, lemma_mag_mul_bound,
    lemma_trunc_div_mag, mag, trunc_div, clamp01, div_int, SCALE,
};

verus! {

/// Every component of a vector operand must stay below this magnitude so
/// that no intermediate product can leave `i128`.
pub const COMP_MAX: i128 = 0x4000_0000_0000_0000;

/// Mathematical value of a three-component vector.
pub struct V3i {
    pub x: int,
    pub y: int,
    pub z: int,
}

/// Mathematical value of a four-component vector.
pub struct V4i {
    pub x: int,
    pub y: int,
    pub z: int,
    pub w: int,
}

/// All three components are bounded by `b` in magnitude.
pub open spec fn bounded3(v: V3i, b: int) -> bool {
    mag(v.x) <= b && mag(v.y) <= b && mag(v.z) <= b
}

/// The vector is small enough to be an operand of any `Vec3` operation.
pub open spec fn fits3(v: V3i) -> bool {
    bounded3(v, COMP_MAX as int)
}

/// All four components are bounded by `b` in magnitude.
pub open spec fn bounded4(v: V4i, b: int) -> bool {
    mag(v.x) <= b && mag(v.y) <= b && mag(v.z) <= b && mag(v.w) <= b
}

/// The vector is small enough to be an operand of any `Vec4` operation.
pub open spec fn fits4(v: V4i) -> bool {
    bounded4(v, COMP_MAX as int)
}

/// Componentwise sum.
pub open spec fn add3_s(a: V3i, b: V3i) -> V3i {
    V3i { x: a.x + b.x, y: a.y + b.y, z: a.z + b.z }
}

/// Componentwise difference.
pub open spec fn sub3_s(a: V3i, b: V3i) -> V3i {
    V3i { x: a.x - b.x, y: a.y - b.y, z: a.z - b.z }
}

/// Componentwise negation.
pub open spec fn neg3_s(a: V3i) -> V3i {
    V3i { x: -a.x, y: -a.y, z: -a.z }
}

/// Every component scaled by the fixed-point factor `k`.
pub open spec fn scale3_s(a: V3i, k: int) -> V3i {
    V3i { x: fx_mul_s(a.x, k), y: fx_mul_s(a.y, k), z: fx_mul_s(a.z, k) }
}

/// The fixed-point dot product.
pub open spec fn dot_s(a: V3i, b: V3i) -> int {
    trunc_div(a.x * b.x + a.y * b.y + a.z * b.z, SCALE as int)
}

/// The fixed-point cross product.
pub open spec fn cross_s(a: V3i, b: V3i) -> V3i {
    V3i {
        x: fx_mul_s(a.y, b.z) - fx_mul_s(a.z, b.y),
        y: fx_mul_s(a.z, b.x) - fx_mul_s(a.x, b.z),
        z: fx_mul_s(a.x, b.y) - fx_mul_s(a.y, b.x),
    }
}

/// Sum of the squared raw components (twice the fixed-point scale).
pub open spec fn sq3(v: V3i) -> int {
    v.x * v.x + v.y * v.y + v.z * v.z
}

/// The fixed-point Euclidean length: the integer square root of the sum of
/// squared raw components.
pub open spec fn length_s(v: V3i) -> int {
    isqrt_s(sq3(v))
}

/// The vector rescaled to unit length.
pub open spec fn unit_s(v: V3i) -> V3i {
    V3i {
        x: trunc_div(v.x * (SCALE as int), length_s(v)),
        y: trunc_div(v.y * (SCALE as int), length_s(v)),
        z: trunc_div(v.z * (SCALE as int), length_s(v)),
    }
}

/// The vector rescaled to unit length, or the vector itself when it is zero.
pub open spec fn unit_or_zero_s(v: V3i) -> V3i {
    if sq3(v) > 0 {
        unit_s(v)
    } else {
        v
    }
}

/// Every component clamped to `[-b, b]`.
pub open spec fn clamp3_s(v: V3i, b: int) -> V3i {
    V3i {
        x: if v.x < -b { -b } else if v.x > b { b } else { v.x },
        y: if v.y < -b { -b } else if v.y > b { b } else { v.y },
        z: if v.z < -b { -b } else if v.z > b { b } else { v.z },
    }
}

/// Mirror reflection of `d` about the surface normal `n`:
/// `d - 2 * dot(d, n) * n`.
pub open spec fn reflect_s(d: V3i, n: V3i) -> V3i {
    sub3_s(d, scale3_s(n, 2 * dot_s(d, n)))
}

/// Componentwise sum of four-component vectors.
pub open spec fn add4_s(a: V4i, b: V4i) -> V4i {
    V4i { x: a.x + b.x, y: a.y + b.y, z: a.z + b.z, w: a.w + b.w }
}

/// Every component scaled by the fixed-point factor `k`.
pub open spec fn scale4_s(a: V4i, k: int) -> V4i {
    V4i { x: fx_mul_s(a.x, k), y: fx_mul_s(a.y, k), z: fx_mul_s(a.z, k), w: fx_mul_s(a.w, k) }
}

/// Every component clamped to the unit interval.
pub open spec fn clamp4_s(a: V4i) -> V4i {
    V4i { x: clamp01_s(a.x), y: clamp01_s(a.y), z: clamp01_s(a.z), w: clamp01_s(a.w) }
}

/// Every component divided by the positive integer `n` (truncating).
pub open spec fn div4_int_s(a: V4i, n: int) -> V4i {
    V4i {
        x: trunc_div(a.x, n),
        y: trunc_div(a.y, n),
        z: trunc_div(a.z, n),
        w: trunc_div(a.w, n),
    }
}

/// The squared components of a vector are non-negative and bounded by the
/// square of a component bound.
pub proof fn lemma_sq3_bounds(v: V3i, b: int)
    requires
        bounded3(v, b),
    ensures
        0 <= sq3(v),
        v.x * v.x <= sq3(v),
        v.y * v.y <= sq3(v),
        v.z * v.z <= sq3(v),
        sq3(v) <= 3 * (b * b),
{
    lemma_mag_mul(v.x, v.x);
    lemma_mag_mul(v.y, v.y);
    lemma_mag_mul(v.z, v.z);
    lemma_mag_mul_bound(v.x, v.x, b, b);
    lemma_mag_mul_bound(v.y, v.y, b, b);
    lemma_mag_mul_bound(v.z, v.z, b, b);
}

/// Componentwise bounds on the operands bound the dot product:
/// its magnitude is at most `3 * ba * bb / SCALE`.
pub proof fn lemma_dot_bound(a: V3i, b: V3i, ba: int, bb: int)
    requires
        bounded3(a, ba),
        bounded3(b, bb),
    ensures
        mag(dot_s(a, b)) <= 3 * (ba * bb) / (SCALE as int),
{
    lemma_mag_mul_bound(a.x, b.x, ba, bb);
    lemma_mag_mul_bound(a.y, b.y, ba, bb);
    lemma_mag_mul_bound(a.z, b.z, ba, bb);
    let s = a.x * b.x + a.y * b.y + a.z * b.z;
    lemma_trunc_div_mag(s, SCALE as int);
    lemma_div_is_ordered(mag(s), 3 * (ba * bb), SCALE as int);
}

/// Componentwise products bounded by `cap * SCALE` bound a scaled vector by
/// `cap`.
pub proof fn lemma_scale3_bound(v: V3i, k: int, cap: int)
    requires
        0 <= cap,
        mag(v.x) * mag(k) <= cap * (SCALE as int),
        mag(v.y) * mag(k) <= cap * (SCALE as int),
        mag(v.z) * mag(k) <= cap * (SCALE as int),
    ensures
        bounded3(scale3_s(v, k), cap),
{
    lemma_mag_mul(v.x, k);
    lemma_mag_mul(v.y, k);
    lemma_mag_mul(v.z, k);
    lemma_trunc_div_mag(v.x * k, SCALE as int);
    lemma_trunc_div_mag(v.y * k, SCALE as int);
    lemma_trunc_div_mag(v.z * k, SCALE as int);
    lemma_div_is_ordered(mag(v.x * k), cap * (SCALE as int), SCALE as int);
    lemma_div_is_ordered(mag(v.y * k), cap * (SCALE as int), SCALE as int);
    lemma_div_is_ordered(mag(v.z * k), cap * (SCALE as int), SCALE as int);
    lemma_div_multiples_vanish(cap, SCALE as int);
    assert(cap * (SCALE as int) == (SCALE as int) * cap) by (nonlinear_arith);
}

/// Bounds on a vector and on a factor bound the scaled vector.
pub proof fn lemma_scale3_bound_by(v: V3i, k: int, bv: int, bk: int, cap: int)
    requires
        bounded3(v, bv),
        mag(k) <= bk,
        0 <= bv,
        0 <= bk,
        0 <= cap,
        bv * bk <= cap * (SCALE as int),
    ensures
        bounded3(scale3_s(v, k), cap),
{
    lemma_mul_inequality(mag(v.x), bv, mag(k));
    lemma_mul_inequality(mag(v.y), bv, mag(k));
    lemma_mul_inequality(mag(v.z), bv, mag(k));
    lemma_mul_inequality(mag(k), bk, bv);
    assert(bv * mag(k) == mag(k) * bv) by (nonlinear_arith);
    assert(bv * bk == bk * bv) by (nonlinear_arith);
    lemma_scale3_bound(v, k, cap);
}

/// Componentwise bounds on the operands bound the cross product.
pub proof fn lemma_cross3_bound(a: V3i, b: V3i, ba: int, bb: int)
    requires
        bounded3(a, ba),
        bounded3(b, bb),
        0 <= ba,
        0 <= bb,
    ensures
        bounded3(cross_s(a, b), 2 * ((ba * bb) / (SCALE as int))),
{
    lemma_mag_mul_bound(a.y, b.z, ba, bb);
    lemma_mag_mul_bound(a.z, b.y, ba, bb);
    lemma_mag_mul_bound(a.z, b.x, ba, bb);
    lemma_mag_mul_bound(a.x, b.z, ba, bb);
    lemma_mag_mul_bound(a.x, b.y, ba, bb);
    lemma_mag_mul_bound(a.y, b.x, ba, bb);
    lemma_trunc_div_mag(a.y * b.z, SCALE as int);
    lemma_trunc_div_mag(a.z * b.y, SCALE as int);
    lemma_trunc_div_mag(a.z * b.x, SCALE as int);
    lemma_trunc_div_mag(a.x * b.z, SCALE as int);
    lemma_trunc_div_mag(a.x * b.y, SCALE as int);
    lemma_trunc_div_mag(a.y * b.x, SCALE as int);
    lemma_div_is_ordered(mag(a.y * b.z), ba * bb, SCALE as int);
    lemma_div_is_ordered(mag(a.z * b.y), ba * bb, SCALE as int);
    lemma_div_is_ordered(mag(a.z * b.x), ba * bb, SCALE as int);
    lemma_div_is_ordered(mag(a.x * b.z), ba * bb, SCALE as int);
    lemma_div_is_ordered(mag(a.x * b.y), ba * bb, SCALE as int);
    lemma_div_is_ordered(mag(a.y * b.x), ba * bb, SCALE as int);
}

/// Bounds on a four-component vector and on a factor bound the scaled
/// vector.
pub proof fn lemma_scale4_bound_by(v: V4i, k: int, bv: int, bk: int, cap: int)
    requires
        bounded4(v, bv),
        mag(k) <= bk,
        0 <= bv,
        0 <= bk,
        0 <= cap,
        bv * bk <= cap * (SCALE as int),
    ensures
        bounded4(scale4_s(v, k), cap),
{
    lemma_mag_mul_bound(v.x, k, bv, bk);
    lemma_mag_mul_bound(v.y, k, bv, bk);
    lemma_mag_mul_bound(v.z, k, bv, bk);
    lemma_mag_mul_bound(v.w, k, bv, bk);
    lemma_trunc_div_mag(v.x * k, SCALE as int);
    lemma_trunc_div_mag(v.y * k, SCALE as int);
    lemma_trunc_div_mag(v.z * k, SCALE as int);
    lemma_trunc_div_mag(v.w * k, SCALE as int);
    lemma_div_is_ordered(mag(v.x * k), cap * (SCALE as int), SCALE as int);
    lemma_div_is_ordered(mag(v.y * k), cap * (SCALE as int), SCALE as int);
    lemma_div_is_ordered(mag(v.z * k), cap * (SCALE as int), SCALE as int);
    lemma_div_is_ordered(mag(v.w * k), cap * (SCALE as int), SCALE as int);
    lemma_div_multiples_vanish(cap, SCALE as int);
    assert(cap * (SCALE as int) == (SCALE as int) * cap) by (nonlinear_arith);
}

/// Whatever the vector, its guarded normalization is bounded by the
/// fixed-point one: a zero vector stays zero, and every component of a
/// normalized vector is at most the length it was divided by.
pub proof fn lemma_unit_or_zero_s_bounded(v: V3i)
    ensures
        bounded3(unit_or_zero_s(v), SCALE as int),
{
    lemma_mag_mul(v.x, v.x);
    lemma_mag_mul(v.y, v.y);
    lemma_mag_mul(v.z, v.z);
    if sq3(v) > 0 {
        crate::fx::lemma_isqrt_exists(sq3(v));
        let len = length_s(v);
        if len == 0 {
            assert(sq3(v) < (0int + 1) * (0int + 1));
            assert((0int + 1) * (0int + 1) == 1) by (nonlinear_arith);
            assert(false);
        }
        lemma_comp_le_len(v.x, sq3(v), len);
        lemma_comp_le_len(v.y, sq3(v), len);
        lemma_comp_le_len(v.z, sq3(v), len);
        lemma_mag_mul(v.x, SCALE as int);
        lemma_mag_mul(v.y, SCALE as int);
        lemma_mag_mul(v.z, SCALE as int);
        lemma_trunc_div_mag(v.x * (SCALE as int), len);
        lemma_trunc_div_mag(v.y * (SCALE as int), len);
        lemma_trunc_div_mag(v.z * (SCALE as int), len);
        lemma_mul_inequality(mag(v.x), len, SCALE as int);
        lemma_mul_inequality(mag(v.y), len, SCALE as int);
        lemma_mul_inequality(mag(v.z), len, SCALE as int);
        lemma_div_is_ordered(mag(v.x) * (SCALE as int), len * (SCALE as int), len);
        lemma_div_is_ordered(mag(v.y) * (SCALE as int), len * (SCALE as int), len);
        lemma_div_is_ordered(mag(v.z) * (SCALE as int), len * (SCALE as int), len);
        lemma_div_multiples_vanish(SCALE as int, len);
    } else {
        if v.x != 0 {
            assert(v.x * v.x > 0) by (nonlinear_arith)
                requires
                    v.x != 0,
            ;
        }
        if v.y != 0 {
            assert(v.y * v.y > 0) by (nonlinear_arith)
                requires
                    v.y != 0,
            ;
        }
        if v.z != 0 {
            assert(v.z * v.z > 0) by (nonlinear_arith)
                requires
                    v.z != 0,
            ;
        }
        assert(v.x == 0 && v.y == 0 && v.z == 0);
    }
}

/// No raw component of a vector can exceed the vector's length.
pub proof fn lemma_comp_le_len(c: int, sum: int, len: int)
    requires
        c * c <= sum,
        0 <= len,
        len * len <= sum,
        sum < (len + 1) * (len + 1),
    ensures
        mag(c) <= len,
{
    lemma_mag_mul(c, c);
    if mag(c) > len {
        assert(mag(c) * mag(c) >= (len + 1) * (len + 1)) by (nonlinear_arith)
            requires
                mag(c) >= len + 1 >= 0,
        ;
    }
}

/// A three-component fixed-point vector.
#[derive(Clone, Copy, Debug, PartialEq, Eq, Structural)]
pub struct Vec3 {
    pub x: i128,
    pub y: i128,
    pub z: i128,
}

/// A four-component fixed-point vector.
#[derive(Clone, Copy, Debug, PartialEq, Eq, Structural)]
pub struct Vec4 {
    pub x: i128,
    pub y: i128,
    pub z: i128,
    pub w: i128,
}

impl Vec3 {
    /// Mathematical value of the vector.
    pub open spec fn m(self) -> V3i {
        V3i { x: self.x as int, y: self.y as int, z: self.z as int }
    }

    /// Builds a vector from its three components.
    pub fn new(x: i128, y: i128, z: i128) -> (r: Vec3)
        ensures
            r.m() == (V3i { x: x as int, y: y as int, z: z as int }),
    {
        Vec3 { x, y, z }
    }

    /// First component.
    pub fn x(&self) -> (r: i128)
        ensures
            r == self.x,
    {
        self.x
    }

    /// Second component.
    pub fn y(&self) -> (r: i128)
        ensures
            r == self.y,
    {
        self.y
    }

    /// Third component.
    pub fn z(&self) -> (r: i128)
        ensures
            r == self.z,
    {
        self.z
    }

    /// Componentwise sum.
    pub fn add(&self, other: &Vec3) -> (r: Vec3)
        requires
            fits3(self.m()),
            fits3(other.m()),
        ensures
            r.m() == add3_s(self.m(), other.m()),
    {
        Vec3 { x: self.x + other.x, y: self.y + other.y, z: self.z + other.z }
    }

    /// Componentwise difference.
    pub fn sub(&self, other: &Vec3) -> (r: Vec3)
        requires
            fits3(self.m()),
            fits3(other.m()),
        ensures
            r.m() == sub3_s(self.m(), other.m()),
    {
        Vec3 { x: self.x - other.x, y: self.y - other.y, z: self.z - other.z }
    }

    /// Componentwise negation.
    pub fn neg(&self) -> (r: Vec3)
        requires
            fits3(self.m()),
        ensures
            r.m() == neg3_s(self.m()),
    {
        Vec3 { x: -self.x, y: -self.y, z: -self.z }
    }

    /// Every component scaled by the fixed-point factor `k`.
    pub fn scale(&self, k: i128) -> (r: Vec3)
        requires
            fits3(self.m()),
            mag(k as int) <= COMP_MAX as int,
        ensures
            r.m() == scale3_s(self.m(), k as int),
    {
        proof {
            lemma_mag_mul_bound(self.x as int, k as int, COMP_MAX as int, COMP_MAX as int);
            lemma_mag_mul_bound(self.y as int, k as int, COMP_MAX as int, COMP_MAX as int);
            lemma_mag_mul_bound(self.z as int, k as int, COMP_MAX as int, COMP_MAX as int);
        }
        Vec3 { x: fx_mul(self.x, k), y: fx_mul(self.y, k), z: fx_mul(self.z, k) }
    }

    /// The fixed-point dot product.
    pub fn dot(&self, other: &Vec3) -> (r: i128)
        requires
            fits3(self.m()),
            fits3(other.m()),
        ensures
            r == dot_s(self.m(), other.m()),
    {
        proof {
            lemma_mag_mul_bound(self.x as int, other.x as int, COMP_MAX as int, COMP_MAX as int);
            lemma_mag_mul_bound(self.y as int, other.y as int, COMP_MAX as int, COMP_MAX as int);
            lemma_mag_mul_bound(self.z as int, other.z as int, COMP_MAX as int, COMP_MAX as int);
        }
        let s: i128 = self.x * other.x + self.y * other.y + self.z * other.z;
        div_int(s, SCALE)
    }

    /// The fixed-point cross product.
    pub fn cross(&self, other: &Vec3) -> (r: Vec3)
        requires
            fits3(self.m()),
            fits3(other.m()),
        ensures
            r.m() == cross_s(self.m(), other.m()),
    {
        proof {
            lemma_mag_mul_bound(self.x as int, other.x as int, COMP_MAX as int, COMP_MAX as int);
            lemma_mag_mul_bound(self.x as int, other.y as int, COMP_MAX as int, COMP_MAX as int);
            lemma_mag_mul_bound(self.x as int, other.z as int, COMP_MAX as int, COMP_MAX as int);
            lemma_mag_mul_bound(self.y as int, other.x as int, COMP_MAX as int, COMP_MAX as int);
            lemma_mag_mul_bound(self.y as int, other.y as int, COMP_MAX as int, COMP_MAX as int);
            lemma_mag_mul_bound(self.y as int, other.z as int, COMP_MAX as int, COMP_MAX as int);
            lemma_mag_mul_bound(self.z as int, other.x as int, COMP_MAX as int, COMP_MAX as int);
            lemma_mag_mul_bound(self.z as int, other.y as int, COMP_MAX as int, COMP_MAX as int);
            lemma_mag_mul_bound(self.z as int, other.z as int, COMP_MAX as int, COMP_MAX as int);
        }
        Vec3 {
            x: fx_mul(self.y, other.z) - fx_mul(self.z, other.y),
            y: fx_mul(self.z, other.x) - fx_mul(self.x, other.z),
            z: fx_mul(self.x, other.y) - fx_mul(self.y, other.x),
        }
    }

    /// The squared length as a fixed-point value: the dot product of the
    /// vector with itself.
    pub fn lenght_squared(&self) -> (r: i128)
        requires
            fits3(self.m()),
        ensures
            r == dot_s(self.m(), self.m()),
    {
        self.dot(self)
    }

    /// The fixed-point Euclidean length.
    pub fn length(&self) -> (r: i128)
        requires
            fits3(self.m()),
        ensures
            r == length_s(self.m()),
            0 <= r,
            (r as int) * (r as int) <= sq3(self.m()),
            sq3(self.m()) < ((r as int) + 1) * ((r as int) + 1),
    {
        proof {
            lemma_sq3_bounds(self.m(), COMP_MAX as int);
            assert(3 * ((COMP_MAX as int) * (COMP_MAX as int))
                < 0x4000_0000_0000_0000_0000_0000_0000_0000int) by (nonlinear_arith);
        }
        let s: i128 = self.x * self.x + self.y * self.y + self.z * self.z;
        let r: u128 = isqrt(s as u128);
        r as i128
    }

    /// The vector rescaled to unit length.  Every component of the result is
    /// bounded by the fixed-point one.
    pub fn unit_vector(v: &Vec3) -> (r: Vec3)
        requires
            fits3(v.m()),
            sq3(v.m()) > 0,
        ensures
            r.m() == unit_s(v.m()),
            bounded3(r.m(), SCALE as int),
    {
        let len: i128 = v.length();
        proof {
            if len == 0 {
                assert(sq3(v.m()) < (0int + 1) * (0int + 1));
                assert(false);
            }
            lemma_sq3_bounds(v.m(), COMP_MAX as int);
            lemma_comp_le_len(v.m().x, sq3(v.m()), len as int);
            lemma_comp_le_len(v.m().y, sq3(v.m()), len as int);
            lemma_comp_le_len(v.m().z, sq3(v.m()), len as int);
            lemma_mag_mul(v.m().x, SCALE as int);
            lemma_mag_mul(v.m().y, SCALE as int);
            lemma_mag_mul(v.m().z, SCALE as int);
            lemma_mag_mul_bound(v.m().x, SCALE as int, COMP_MAX as int, SCALE as int);
            lemma_mag_mul_bound(v.m().y, SCALE as int, COMP_MAX as int, SCALE as int);
            lemma_mag_mul_bound(v.m().z, SCALE as int, COMP_MAX as int, SCALE as int);
            lemma_trunc_div_mag(v.m().x * (SCALE as int), len as int);
            lemma_trunc_div_mag(v.m().y * (SCALE as int), len as int);
            lemma_trunc_div_mag(v.m().z * (SCALE as int), len as int);
            lemma_mul_inequality(mag(v.m().x), len as int, SCALE as int);
            lemma_mul_inequality(mag(v.m().y), len as int, SCALE as int);
            lemma_mul_inequality(mag(v.m().z), len as int, SCALE as int);
            lemma_div_is_ordered(mag(v.m().x) * (SCALE as int), (len as int) * (SCALE as int), len as int);
            lemma_div_is_ordered(mag(v.m().y) * (SCALE as int), (len as int) * (SCALE as int), len as int);
            lemma_div_is_ordered(mag(v.m().z) * (SCALE as int), (len as int) * (SCALE as int), len as int);
            lemma_div_multiples_vanish(SCALE as int, len as int);
        }
        Vec3 { x: fx_div(v.x, len), y: fx_div(v.y, len), z: fx_div(v.z, len) }
    }

    /// The vector rescaled to unit length, or left untouched when it is
    /// zero, so that degenerate directions stay representable instead of
    /// failing.
    pub fn unit_or_zero(v: &Vec3) -> (r: Vec3)
        requires
            fits3(v.m()),
        ensures
            r.m() == unit_or_zero_s(v.m()),
            bounded3(r.m(), SCALE as int),
    {
        if v.x == 0 && v.y == 0 && v.z == 0 {
            *v
        } else {
            proof {
                lemma_sq3_bounds(v.m(), COMP_MAX as int);
                if v.m().x != 0 {
                    lemma_mag_mul(v.m().x, v.m().x);
                    assert(mag(v.m().x) * mag(v.m().x) > 0) by (nonlinear_arith)
                        requires
                            mag(v.m().x) > 0,
                    ;
                } else if v.m().y != 0 {
                    lemma_mag_mul(v.m().y, v.m().y);
                    assert(mag(v.m().y) * mag(v.m().y) > 0) by (nonlinear_arith)
                        requires
                            mag(v.m().y) > 0,
                    ;
                } else {
                    lemma_mag_mul(v.m().z, v.m().z);
                    assert(mag(v.m().z) * mag(v.m().z) > 0) by (nonlinear_arith)
                        requires
                            mag(v.m().z) > 0,
                    ;
                }
            }
            Vec3::unit_vector(v)
        }
    }

    /// Every component clamped to `[-b, b]`.
    pub fn clamp_box(&self, b: i128) -> (r: Vec3)
        requires
            0 <= b,
        ensures
            r.m() == clamp3_s(self.m(), b as int),
            bounded3(r.m(), b as int),
    {
        let x: i128 = if self.x < -b {
            -b
        } else if self.x > b {
            b
        } else {
            self.x
        };
        let y: i128 = if self.y < -b {
            -b
        } else if self.y > b {
            b
        } else {
            self.y
        };
        let z: i128 = if self.z < -b {
            -b
        } else if self.z > b {
            b
        } else {
            self.z
        };
        Vec3 { x, y, z }
    }

    /// Builds a vector from the first three slots of an array.
    pub fn from_array(array: [i128; 4]) -> (r: Vec3)
        ensures
            r.m() == (V3i { x: array[0] as int, y: array[1] as int, z: array[2] as int }),
    {
        Vec3 { x: array[0], y: array[1], z: array[2] }
    }

    /// The components in an array, with a zero in the fourth slot.
    pub fn to_array(&self) -> (r: [i128; 4])
        ensures
            r[0] == self.x && r[1] == self.y && r[2] == self.z && r[3] == 0,
    {
        [self.x, self.y, self.z, 0]
    }
}

impl Vec4 {
    /// Mathematical value of the vector.
    pub open spec fn m(self) -> V4i {
        V4i { x: self.x as int, y: self.y as int, z: self.z as int, w: self.w as int }
    }

    /// Builds a vector from its four components.
    pub fn new(x: i128, y: i128, z: i128, w: i128) -> (r: Vec4)
        ensures
            r.m() == (V4i { x: x as int, y: y as int, z: z as int, w: w as int }),
    {
        Vec4 { x, y, z, w }
    }

    /// Componentwise sum.
    pub fn add(&self, other: &Vec4) -> (r: Vec4)
        requires
            fits4(self.m()),
            fits4(other.m()),
        ensures
            r.m() == add4_s(self.m(), other.m()),
    {
        Vec4 { x: self.x + other.x, y: self.y + other.y, z: self.z + other.z, w: self.w + other.w }
    }

    /// Every component scaled by the fixed-point factor `k`.
    pub fn scale(&self, k: i128) -> (r: Vec4)
        requires
            fits4(self.m()),
            mag(k as int) <= COMP_MAX as int,
        ensures
            r.m() == scale4_s(self.m(), k as int),
    {
        proof {
            lemma_mag_mul_bound(self.x as int, k as int, COMP_MAX as int, COMP_MAX as int);
            lemma_mag_mul_bound(self.y as int, k as int, COMP_MAX as int, COMP_MAX as int);
            lemma_mag_mul_bound(self.z as int, k as int, COMP_MAX as int, COMP_MAX as int);
            lemma_mag_mul_bound(self.w as int, k as int, COMP_MAX as int, COMP_MAX as int);
        }
        Vec4 {
            x: fx_mul(self.x, k),
            y: fx_mul(self.y, k),
            z: fx_mul(self.z, k),
            w: fx_mul(self.w, k),
        }
    }

    /// Every component clamped to the unit interval.
    pub fn clamp01(&self) -> (r: Vec4)
        ensures
            r.m() == clamp4_s(self.m()),
    {
        Vec4 {
            x: clamp01(self.x),
            y: clamp01(self.y),
            z: clamp01(self.z),
            w: clamp01(self.w),
        }
    }

    /// Every component divided by the positive integer `n` (truncating).
    pub fn div_int(&self, n: i128) -> (r: Vec4)
        requires
            n > 0,
            fits4(self.m()),
        ensures
            r.m() == div4_int_s(self.m(), n as int),
    {
        Vec4 {
            x: div_int(self.x, n),
            y: div_int(self.y, n),
            z: div_int(self.z, n),
            w: div_int(self.w, n),
        }
    }

    /// Extends a three-component vector with an explicit fourth component.
    pub fn from_vec3(v: &Vec3, w: i128) -> (r: Vec4)
        ensures
            r.m() == (V4i { x: v.x as int, y: v.y as int, z: v.z as int, w: w as int }),
    {
        Vec4 { x: v.x, y: v.y, z: v.z, w }
    }
}

} // verus!
