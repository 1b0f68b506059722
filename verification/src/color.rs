//! Linear color helpers: quantization to 8-bit channels and the textual
//! `"<R> <G> <B>"` form used by the image export.
//!
//! A linear channel is a fixed-point value; quantization clamps it to the
//! unit interval and scales by 255, truncating.  The single 255 scale factor
//! is used everywhere a channel becomes a byte.

use vstd::prelude::*;
use vstd::arithmetic::div_mod::lemma_div_is_ordered;
use crate::fx::{clamp01, clamp01_s, SCALE};
use crate::vec3::{V3i, Vec3};

pub use crate::vec3::Vec3 as Color;

verus! {

/// The 8-bit channel a linear fixed-point channel maps to: clamped to the
/// unit interval, scaled by 255, truncated.
pub open spec fn quant_s(c: int) -> int {
    clamp01_s(c) * 255 / (SCALE as int)
}

/// ASCII decimal digits of a non-negative integer, most significant first.
pub open spec fn dec_seq(n: int) -> Seq<u8>
    recommends
        n >= 0,
    decreases n,
{
    if n < 10 {
        seq![(48 + if n >= 0 { n } else { 0 }) as u8]
    } else {
        dec_seq(n / 10).push((48 + n % 10) as u8)
    }
}

/// The textual form of one pixel: three quantized channels separated by
/// single spaces, closed by a newline.
pub open spec fn color_line_s(c: V3i) -> Seq<u8> {
    dec_seq(quant_s(c.x)) + seq![32u8] + dec_seq(quant_s(c.y)) + seq![32u8] + dec_seq(
        quant_s(c.z),
    ) + seq![10u8]
}

/// Quantizes one linear channel to its 8-bit value.
pub fn quantize(c: i128) -> (r: u8)
    ensures
        r == quant_s(c as int),
{
    let cc: i128 = clamp01(c);
    proof {
        assert(cc * 255 <= 65536 * 255) by (nonlinear_arith)
            requires
                0 <= cc <= 65536,
        ;
        assert(cc * 255 >= 0) by (nonlinear_arith)
            requires
                cc >= 0,
        ;
        lemma_div_is_ordered(cc * 255, 16711680int, SCALE as int);
    }
    (((cc as u128) * 255) / 65536) as u8
}

/// ASCII decimal digits of a value, most significant first, no sign and no
/// leading zeros.
pub fn dec_bytes(n: u32) -> (out: Vec<u8>)
    ensures
        out@ == dec_seq(n as int),
    decreases n,
{
    if n < 10 {
        let mut out: Vec<u8> = Vec::new();
        out.push(48 + n as u8);
        out
    } else {
        let mut out: Vec<u8> = dec_bytes(n / 10);
        out.push(48 + (n % 10) as u8);
        out
    }
}

impl Vec3 {
    /// The color with every channel zero.
    pub fn black() -> (r: Color)
        ensures
            r.m() == (V3i { x: 0, y: 0, z: 0 }),
    {
        Vec3 { x: 0, y: 0, z: 0 }
    }
}

/// The textual form of one linear color: quantized channels and a newline,
/// ready to be appended to a plain-text image.
pub fn write_color(pixel_color: &Color) -> (out: Vec<u8>)
    ensures
        out@ == color_line_s(pixel_color.m()),
{
    let r: u8 = quantize(pixel_color.x);
    let g: u8 = quantize(pixel_color.y);
    let b: u8 = quantize(pixel_color.z);
    let mut out: Vec<u8> = dec_bytes(r as u32);
    out.push(32);
    let mut gd: Vec<u8> = dec_bytes(g as u32);
    out.append(&mut gd);
    out.push(32);
    let mut bd: Vec<u8> = dec_bytes(b as u32);
    out.append(&mut bd);
    out.push(10);
    proof {
        assert(out@ =~= color_line_s(pixel_color.m()));
    }
    out
}

} // verus!
