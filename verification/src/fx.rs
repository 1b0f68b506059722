//! Signed 16.16 fixed-point scalars.
//!
//! A quantity is stored as an `i128` holding its value multiplied by
//! [`SCALE`].  Multiplication and division truncate toward zero, exactly as
//! the corresponding machine operations on magnitudes do, so every operation
//! has an exact mathematical description.  The wide representation leaves
//! enough headroom that the integrator can bound all intermediate products
//! without saturating.

use vstd::prelude::*;
use vstd::arithmetic::mul::lemma_mul_inequality;

verus! {

/// Number of raw units in 1.0: the fixed-point scale.
pub const SCALE: i128 = 65536;

/// The value one.
pub const ONE: i128 = 65536;

/// The value one half.
pub const HALF: i128 = 32768;

/// Magnitude of an integer.
pub open spec fn mag(a: int) -> int {
    if a >= 0 {
        a
    } else {
        -a
    }
}

/// Quotient of `a` by `b`, truncated toward zero (`b > 0`).
pub open spec fn trunc_div(a: int, b: int) -> int
    recommends
        b > 0,
{
    if a >= 0 {
        a / b
    } else {
        -((-a) / b)
    }
}

/// Product of two fixed-point values: `a * b / SCALE`, truncated toward zero.
pub open spec fn fx_mul_s(a: int, b: int) -> int {
    trunc_div(a * b, SCALE as int)
}

/// Quotient of two fixed-point values: `a * SCALE / b`, truncated toward zero.
pub open spec fn fx_div_s(a: int, b: int) -> int
    recommends
        b > 0,
{
    trunc_div(a * (SCALE as int), b)
}

/// A fixed-point value clamped to the unit interval `[0, 1]`.
pub open spec fn clamp01_s(a: int) -> int {
    if a < 0 {
        0
    } else if a > ONE as int {
        ONE as int
    } else {
        a
    }
}

/// The magnitude of a product is the product of the magnitudes, and the
/// product is negative exactly when the signs differ and neither factor is
/// zero.
pub proof fn lemma_mag_mul(a: int, b: int)
    ensures
        mag(a * b) == mag(a) * mag(b),
        (a * b < 0) <==> (((a < 0) != (b < 0)) && a != 0 && b != 0),
{
    if a >= 0 && b >= 0 {
        assert(a * b >= 0) by (nonlinear_arith)
            requires
                a >= 0,
                b >= 0,
        ;
    } else if a >= 0 && b < 0 {
        assert(a * b <= 0 && a * b == -(a * (-b)) && (a > 0 ==> a * b < 0)) by (nonlinear_arith)
            requires
                a >= 0,
                b < 0,
        ;
    } else if a < 0 && b >= 0 {
        assert(a * b <= 0 && a * b == -((-a) * b) && (b > 0 ==> a * b < 0)) by (nonlinear_arith)
            requires
                a < 0,
                b >= 0,
        ;
    } else {
        assert(a * b > 0 && a * b == (-a) * (-b)) by (nonlinear_arith)
            requires
                a < 0,
                b < 0,
        ;
    }
}

/// Bounds on the factors bound the magnitude of a product.
pub proof fn lemma_mag_mul_bound(a: int, b: int, ba: int, bb: int)
    requires
        mag(a) <= ba,
        mag(b) <= bb,
    ensures
        mag(a * b) <= ba * bb,
        mag(a) * mag(b) <= ba * bb,
        mag(a) * mag(b) == mag(a * b),
        -(ba * bb) <= a * b <= ba * bb,
{
    lemma_mag_mul(a, b);
    lemma_mul_inequality(mag(a), ba, mag(b));
    lemma_mul_inequality(mag(b), bb, ba);
    assert(ba * mag(b) == mag(b) * ba) by (nonlinear_arith);
    assert(ba * bb == bb * ba) by (nonlinear_arith);
}

/// Truncating toward zero never grows the magnitude of a quotient.
pub proof fn lemma_trunc_div_bound(a: int, b: int, bound: int)
    requires
        b > 0,
        mag(a) <= bound,
        0 <= bound,
    ensures
        mag(trunc_div(a, b)) <= bound,
        -bound <= trunc_div(a, b) <= bound,
{
    if a >= 0 {
        assert(a / b <= a && a / b >= 0) by (nonlinear_arith)
            requires
                a >= 0,
                b > 0,
        ;
    } else {
        assert((-a) / b <= -a && (-a) / b >= 0) by (nonlinear_arith)
            requires
                a < 0,
                b > 0,
        ;
    }
}

/// A truncated quotient of non-negative values is non-negative.
pub proof fn lemma_trunc_div_nonneg(a: int, b: int)
    requires
        0 <= a,
        0 < b,
    ensures
        0 <= trunc_div(a, b),
{
    assert(a / b >= 0) by (nonlinear_arith)
        requires
            a >= 0,
            b > 0,
    ;
}

/// The magnitude of a truncated quotient is the floor quotient of the
/// magnitude.
pub proof fn lemma_trunc_div_mag(a: int, b: int)
    requires
        b > 0,
    ensures
        mag(trunc_div(a, b)) == mag(a) / b,
{
    if a >= 0 {
        assert(a / b >= 0) by (nonlinear_arith)
            requires
                a >= 0,
                b > 0,
        ;
    } else {
        assert((-a) / b >= 0) by (nonlinear_arith)
            requires
                a < 0,
                b > 0,
        ;
    }
}

/// Product of two fixed-point values, truncated toward zero.
pub fn fx_mul(a: i128, b: i128) -> (r: i128)
    requires
        a != i128::MIN,
        b != i128::MIN,
        mag(a as int) * mag(b as int) <= i128::MAX as int,
    ensures
        r == fx_mul_s(a as int, b as int),
        mag(r as int) <= mag(a as int) * mag(b as int),
{
    proof {
        lemma_mag_mul(a as int, b as int);
    }
    let ma: u128 = if a >= 0 {
        a as u128
    } else {
        (-a) as u128
    };
    let mb: u128 = if b >= 0 {
        b as u128
    } else {
        (-b) as u128
    };
    let mp: u128 = ma * mb;
    let q: u128 = mp / 65536;
    let r: i128 = if (a < 0) != (b < 0) {
        -(q as i128)
    } else {
        q as i128
    };
    proof {
        let p = (a as int) * (b as int);
        assert(q <= mp) by (nonlinear_arith)
            requires
                q == mp / 65536,
        ;
        assert(mp as int == mag(p));
        if (a < 0) != (b < 0) {
            if p >= 0 {
                assert(a == 0 || b == 0);
                assert(p == 0) by (nonlinear_arith)
                    requires
                        p == (a as int) * (b as int),
                        a == 0 || b == 0,
                ;
                assert(q == 0);
            } else {
                assert(-p == mag(p));
            }
            assert(r as int == -(q as int));
            assert(r as int == trunc_div(p, SCALE as int));
        } else {
            assert(p >= 0);
            assert(p == mag(p));
            assert(r as int == q as int);
            assert(r as int == trunc_div(p, SCALE as int));
        }
        lemma_trunc_div_bound(p, SCALE as int, mag(a as int) * mag(b as int));
    }
    r
}

/// Quotient of two fixed-point values (`b > 0`), truncated toward zero.
pub fn fx_div(a: i128, b: i128) -> (r: i128)
    requires
        a != i128::MIN,
        b > 0,
        mag(a as int) * (SCALE as int) <= i128::MAX as int,
    ensures
        r == fx_div_s(a as int, b as int),
        mag(r as int) <= mag(a as int) * (SCALE as int),
{
    proof {
        lemma_mag_mul(a as int, SCALE as int);
    }
    let ma: u128 = if a >= 0 {
        a as u128
    } else {
        (-a) as u128
    };
    let mp: u128 = ma * 65536;
    let q: u128 = mp / (b as u128);
    let r: i128 = if a < 0 {
        -(q as i128)
    } else {
        q as i128
    };
    proof {
        let p = (a as int) * (SCALE as int);
        assert(q <= mp) by (nonlinear_arith)
            requires
                q == mp / (b as u128),
                b > 0,
        ;
        assert(mp as int == mag(p));
        if p >= 0 {
            assert(trunc_div(p, b as int) == q as int);
        } else {
            assert(trunc_div(p, b as int) == -(q as int));
        }
        lemma_trunc_div_bound(p, b as int, mag(a as int) * (SCALE as int));
    }
    r
}

/// Quotient of a fixed-point value by a plain positive integer, truncated
/// toward zero.
pub fn div_int(a: i128, n: i128) -> (r: i128)
    requires
        a != i128::MIN,
        n > 0,
    ensures
        r == trunc_div(a as int, n as int),
        mag(r as int) <= mag(a as int),
{
    let ma: u128 = if a >= 0 {
        a as u128
    } else {
        (-a) as u128
    };
    let q: u128 = ma / (n as u128);
    let r: i128 = if a < 0 {
        -(q as i128)
    } else {
        q as i128
    };
    proof {
        assert(q <= ma) by (nonlinear_arith)
            requires
                q == ma / (n as u128),
                n > 0,
        ;
        assert(ma as int == mag(a as int));
        if a >= 0 {
            assert(trunc_div(a as int, n as int) == q as int);
        } else {
            assert(trunc_div(a as int, n as int) == -(q as int));
        }
        lemma_trunc_div_bound(a as int, n as int, mag(a as int));
    }
    r
}

/// Clamps a fixed-point value to the unit interval.
pub fn clamp01(a: i128) -> (r: i128)
    ensures
        r == clamp01_s(a as int),
{
    if a < 0 {
        0
    } else if a > ONE {
        ONE
    } else {
        a
    }
}

/// The integer square root: the unique `r >= 0` with
/// `r * r <= n < (r + 1) * (r + 1)`.
pub open spec fn isqrt_s(n: int) -> int {
    choose|r: int| 0 <= r && #[trigger] (r * r) <= n && n < (r + 1) * (r + 1)
}

/// Two integer square roots of the same value are equal.
pub proof fn lemma_isqrt_unique(n: int, r1: int, r2: int)
    requires
        0 <= r1,
        r1 * r1 <= n,
        n < (r1 + 1) * (r1 + 1),
        0 <= r2,
        r2 * r2 <= n,
        n < (r2 + 1) * (r2 + 1),
    ensures
        r1 == r2,
{
    if r1 < r2 {
        assert(false) by (nonlinear_arith)
            requires
                0 <= r1 < r2,
                r2 * r2 <= n,
                n < (r1 + 1) * (r1 + 1),
        ;
    }
    if r2 < r1 {
        assert(false) by (nonlinear_arith)
            requires
                0 <= r2 < r1,
                r1 * r1 <= n,
                n < (r2 + 1) * (r2 + 1),
        ;
    }
}

/// Every non-negative integer has an integer square root, so `isqrt_s` of it
/// satisfies the root property.
pub proof fn lemma_isqrt_exists(n: int)
    requires
        0 <= n,
    ensures
        0 <= isqrt_s(n),
        isqrt_s(n) * isqrt_s(n) <= n,
        n < (isqrt_s(n) + 1) * (isqrt_s(n) + 1),
    decreases n,
{
    if n == 0 {
        assert(0int * 0int == 0 && (0int + 1) * (0int + 1) == 1) by (nonlinear_arith);
        lemma_isqrt_is(n, 0);
    } else {
        lemma_isqrt_exists(n - 1);
        let r0 = isqrt_s(n - 1);
        if (r0 + 1) * (r0 + 1) <= n {
            assert(n - 1 < (r0 + 1) * (r0 + 1));
            assert(n < (r0 + 2) * (r0 + 2)) by (nonlinear_arith)
                requires
                    0 <= r0,
                    n <= (r0 + 1) * (r0 + 1),
            ;
            lemma_isqrt_is(n, r0 + 1);
        } else {
            lemma_isqrt_is(n, r0);
        }
    }
}

/// A root bounded from witnesses pins down `isqrt_s`.
pub proof fn lemma_isqrt_is(n: int, r: int)
    requires
        0 <= r,
        r * r <= n,
        n < (r + 1) * (r + 1),
    ensures
        isqrt_s(n) == r,
{
    assert(0 <= r && r * r <= n && n < (r + 1) * (r + 1));
    let w = isqrt_s(n);
    lemma_isqrt_unique(n, w, r);
}

/// Integer square root by binary search.
pub fn isqrt(n: u128) -> (r: u128)
    requires
        (n as int) < 0x4000_0000_0000_0000_0000_0000_0000_0000,
    ensures
        r * r <= n < (r + 1) * (r + 1),
        r == isqrt_s(n as int),
        r < 0x8000_0000_0000_0000,
{
    let mut lo: u128 = 0;
    let mut hi: u128 = 0x8000_0000_0000_0000;
    proof {
        assert((hi as int) * (hi as int) == 0x4000_0000_0000_0000_0000_0000_0000_0000int)
            by (nonlinear_arith)
            requires
                hi == 0x8000_0000_0000_0000,
        ;
    }
    while lo + 1 < hi
        invariant
            lo < hi,
            hi <= 0x8000_0000_0000_0000,
            (lo as int) * (lo as int) <= n as int,
            (n as int) < (hi as int) * (hi as int),
        decreases hi - lo,
    {
        let mid: u128 = lo + (hi - lo) / 2;
        proof {
            assert(lo < mid < hi);
            assert((mid as int) * (mid as int) < 0x4000_0000_0000_0000_0000_0000_0000_0000int)
                by (nonlinear_arith)
                requires
                    0 <= mid < 0x8000_0000_0000_0000,
            ;
        }
        let sq: u128 = mid * mid;
        if sq <= n {
            lo = mid;
        } else {
            hi = mid;
        }
    }
    proof {
        assert(hi == lo + 1);
        lemma_isqrt_is(n as int, lo as int);
    }
    lo
}

} // verus!
