//! The packed-pixel codec and the plain-text pixel form.
//!
//! A pixel is one `u32` with the byte layout `{R, G, B, A}` from least to
//! most significant byte; this order is the canonical format of every canvas
//! the library produces.  Packing clamps each linear channel to the unit
//! interval and scales by 255, truncating; unpacking scales back, rounding
//! up, so that packing what was unpacked restores the very same pixel.

use vstd::prelude::*;
use vstd::arithmetic::div_mod::{
    lemma_div_is_ordered, lemma_div_multiples_vanish_fancy, lemma_fundamental_div_mod,
    lemma_mod_bound,
};
use crate::color::{dec_bytes, dec_seq, quant_s, quantize};
use crate::renderer::Canvas;
use crate::fx::{clamp01_s, trunc_div, ONE, SCALE};
use crate::vec3::{V4i, Vec4};

verus! {

/// The 8-bit channels of a color, assembled into one pixel in the canonical
/// `{R, G, B, A}` order, red in the least significant byte.
pub open spec fn pack_s(c: V4i) -> u32 {
    (quant_s(c.x) as u32) | (quant_s(c.y) as u32) << 8 | (quant_s(c.z) as u32) << 16 | (quant_s(
        c.w,
    ) as u32) << 24
}

/// The linear channel an 8-bit value unpacks to: scaled back to fixed point,
/// rounding up.
pub open spec fn unquant_s(v: int) -> int {
    trunc_div(v * (SCALE as int) + 254, 255)
}

/// The linear color held in one packed pixel.
pub open spec fn unpack_s(p: u32) -> V4i {
    V4i {
        x: unquant_s((p & 0xff) as int),
        y: unquant_s(((p >> 8) & 0xff) as int),
        z: unquant_s(((p >> 16) & 0xff) as int),
        w: unquant_s(((p >> 24) & 0xff) as int),
    }
}

/// Packs a linear color into one pixel.
pub fn color_to_u32(pixel_color: &Vec4) -> (r: u32)
    ensures
        r == pack_s(pixel_color.m()),
{
    let r: u32 = quantize(pixel_color.x) as u32;
    let g: u32 = quantize(pixel_color.y) as u32;
    let b: u32 = quantize(pixel_color.z) as u32;
    let a: u32 = quantize(pixel_color.w) as u32;
    r | g << 8 | b << 16 | a << 24
}

/// Unpacks one pixel into the linear color it holds.
pub fn u32_to_color(p: u32) -> (r: Vec4)
    ensures
        r.m() == unpack_s(p),
        0 <= r.m().x <= ONE,
        0 <= r.m().y <= ONE,
        0 <= r.m().z <= ONE,
        0 <= r.m().w <= ONE,
{
    let b0: u32 = p & 0xff;
    let b1: u32 = (p >> 8) & 0xff;
    let b2: u32 = (p >> 16) & 0xff;
    let b3: u32 = (p >> 24) & 0xff;
    proof {
        assert(b0 < 256 && b1 < 256 && b2 < 256 && b3 < 256) by (bit_vector)
            requires
                b0 == p & 0xff,
                b1 == (p >> 8) & 0xff,
                b2 == (p >> 16) & 0xff,
                b3 == (p >> 24) & 0xff,
        ;
        lemma_unquant_range(b0 as int);
        lemma_unquant_range(b1 as int);
        lemma_unquant_range(b2 as int);
        lemma_unquant_range(b3 as int);
    }
    Vec4 {
        x: unquant(b0),
        y: unquant(b1),
        z: unquant(b2),
        w: unquant(b3),
    }
}

/// Scales one 8-bit channel back to fixed point, rounding up.
fn unquant(v: u32) -> (r: i128)
    requires
        v < 256,
    ensures
        r == unquant_s(v as int),
{
    proof {
        lemma_unquant_range(v as int);
    }
    (((v as u128) * 65536 + 254) / 255) as i128
}

/// An unpacked channel lies in the unit interval.
pub proof fn lemma_unquant_range(v: int)
    requires
        0 <= v <= 255,
    ensures
        0 <= unquant_s(v) <= ONE as int,
{
    let d = v * (SCALE as int) + 254;
    assert(0 <= v * (SCALE as int) <= 255 * 65536) by (nonlinear_arith)
        requires
            0 <= v <= 255,
    ;
    lemma_div_is_ordered(d, 16711934int, 255);
    lemma_div_is_ordered(0, d, 255);
    assert((16711934int) / 255 == 65536) by (nonlinear_arith);
}

/// Quantizing the channel an 8-bit value unpacks to restores that value.
pub proof fn lemma_quant_unquant(v: int)
    requires
        0 <= v <= 255,
    ensures
        quant_s(unquant_s(v)) == v,
{
    let d = v * (SCALE as int) + 254;
    assert(0 <= v * (SCALE as int) <= 255 * 65536) by (nonlinear_arith)
        requires
            0 <= v <= 255,
    ;
    let ch = d / 255;
    lemma_fundamental_div_mod(d, 255);
    lemma_mod_bound(d, 255);
    let rr = d % 255;
    assert(255 * ch == v * (SCALE as int) + 254 - rr);
    assert(0 <= ch) by {
        lemma_div_is_ordered(0, d, 255);
    }
    assert(ch <= 65536);
    lemma_unquant_range(v);
    assert(clamp01_s(ch) == ch);
    assert(ch * 255 == 255 * ch) by (nonlinear_arith);
    assert(ch * 255 == (SCALE as int) * v + (254 - rr));
    lemma_div_multiples_vanish_fancy(v, 254 - rr, SCALE as int);
}

/// Packing the color a pixel unpacks to restores the very same pixel: the
/// byte layout round-trips.
pub proof fn lemma_pack_unpack(p: u32)
    ensures
        pack_s(unpack_s(p)) == p,
{
    let b0 = p & 0xff;
    let b1 = (p >> 8) & 0xff;
    let b2 = (p >> 16) & 0xff;
    let b3 = (p >> 24) & 0xff;
    assert(b0 < 256 && b1 < 256 && b2 < 256 && b3 < 256) by (bit_vector)
        requires
            b0 == p & 0xff,
            b1 == (p >> 8) & 0xff,
            b2 == (p >> 16) & 0xff,
            b3 == (p >> 24) & 0xff,
    ;
    lemma_quant_unquant(b0 as int);
    lemma_quant_unquant(b1 as int);
    lemma_quant_unquant(b2 as int);
    lemma_quant_unquant(b3 as int);
    assert(b0 | b1 << 8 | b2 << 16 | b3 << 24 == p) by (bit_vector)
        requires
            b0 == p & 0xff,
            b1 == (p >> 8) & 0xff,
            b2 == (p >> 16) & 0xff,
            b3 == (p >> 24) & 0xff,
    ;
}

/// Unpacking a packed color restores every channel to within one 8-bit
/// quantization step below the clamped original.
pub proof fn lemma_unpack_pack_channel(c: int)
    requires
        0 <= c <= ONE as int,
    ensures
        c - 257 <= unquant_s(quant_s(c)) <= c,
{
    let q = quant_s(c);
    assert(clamp01_s(c) == c);
    assert(0 <= c * 255 <= 65536 * 255) by (nonlinear_arith)
        requires
            0 <= c <= 65536,
    ;
    lemma_fundamental_div_mod(c * 255, SCALE as int);
    lemma_mod_bound(c * 255, SCALE as int);
    let r2 = (c * 255) % (SCALE as int);
    assert(0 <= q) by {
        lemma_div_is_ordered(0, c * 255, SCALE as int);
    }
    let d = q * (SCALE as int) + 254;
    assert(q * (SCALE as int) == (SCALE as int) * q) by (nonlinear_arith);
    assert(q * (SCALE as int) >= 0) by (nonlinear_arith)
        requires
            q >= 0,
    ;
    assert(d == 255 * c - r2 + 254);
    assert(255 * c == c * 255) by (nonlinear_arith);
    lemma_div_is_ordered(d, 255 * c + 254int, 255);
    lemma_div_multiples_vanish_fancy(c, 254, 255);
    assert(255 * c + 254 == 255 * c + 254);
    lemma_div_is_ordered(255 * (c - 257) + 254, d, 255);
    lemma_div_multiples_vanish_fancy(c - 257, 254, 255);
}

/// Unpacking a packed color restores every channel of a valid (unit-range)
/// color to within one 8-bit quantization step: never above the original,
/// never more than a step below it.
pub proof fn lemma_unpack_pack(c: V4i)
    requires
        0 <= c.x <= ONE as int,
        0 <= c.y <= ONE as int,
        0 <= c.z <= ONE as int,
        0 <= c.w <= ONE as int,
    ensures
        c.x - 257 <= unpack_s(pack_s(c)).x <= c.x,
        c.y - 257 <= unpack_s(pack_s(c)).y <= c.y,
        c.z - 257 <= unpack_s(pack_s(c)).z <= c.z,
        c.w - 257 <= unpack_s(pack_s(c)).w <= c.w,
{
    lemma_quant_range(c.x);
    lemma_quant_range(c.y);
    lemma_quant_range(c.z);
    lemma_quant_range(c.w);
    let qx = quant_s(c.x) as u32;
    let qy = quant_s(c.y) as u32;
    let qz = quant_s(c.z) as u32;
    let qw = quant_s(c.w) as u32;
    let p = pack_s(c);
    assert(p & 0xff == qx && (p >> 8) & 0xff == qy && (p >> 16) & 0xff == qz && (p >> 24) & 0xff
        == qw) by (bit_vector)
        requires
            p == qx | qy << 8 | qz << 16 | qw << 24,
            qx < 256 && qy < 256 && qz < 256 && qw < 256,
    ;
    lemma_unpack_pack_channel(c.x);
    lemma_unpack_pack_channel(c.y);
    lemma_unpack_pack_channel(c.z);
    lemma_unpack_pack_channel(c.w);
}

/// A quantized channel is one byte.
pub proof fn lemma_quant_range(c: int)
    requires
        0 <= c <= ONE as int,
    ensures
        0 <= quant_s(c) <= 255,
{
    assert(clamp01_s(c) == c);
    assert(0 <= c * 255 <= 16711680) by (nonlinear_arith)
        requires
            0 <= c <= 65536,
    ;
    lemma_div_is_ordered(0, c * 255, SCALE as int);
    lemma_div_is_ordered(c * 255, 16711680int, SCALE as int);
}

/// The textual form of one packed pixel: its red, green and blue bytes as
/// decimal numbers separated by single spaces, closed by a newline.
pub open spec fn pixel_line_s(p: u32) -> Seq<u8> {
    dec_seq((p & 0xff) as int) + seq![32u8] + dec_seq(((p >> 8) & 0xff) as int) + seq![32u8]
        + dec_seq(((p >> 16) & 0xff) as int) + seq![10u8]
}

/// The plain-text image header: `P3`, the dimensions, and the channel
/// maximum 255, each on its own line.
pub open spec fn ppm_header_s(w: int, h: int) -> Seq<u8> {
    seq![80u8, 51u8, 10u8] + dec_seq(w) + seq![32u8] + dec_seq(h) + seq![10u8] + seq![
        50u8,
        53u8,
        53u8,
        10u8,
    ]
}

/// The pixel lines of the first `n` pixels, in row-major order.
pub open spec fn ppm_pixels_s(data: Seq<u32>, n: int) -> Seq<u8>
    decreases n,
{
    if n <= 0 {
        Seq::<u8>::empty()
    } else {
        ppm_pixels_s(data, n - 1) + pixel_line_s(data[n - 1])
    }
}

/// The whole plain-text image of a canvas: header, then one line per pixel,
/// row-major with row zero — the image top — first.
pub open spec fn ppm_s(c: Canvas) -> Seq<u8> {
    ppm_header_s(c.width as int, c.height as int) + ppm_pixels_s(c.data@, c.data@.len() as int)
}

/// The textual form of one packed pixel, ready to be appended to a
/// plain-text image.
pub fn write_color(pixel_color: u32) -> (out: Vec<u8>)
    ensures
        out@ == pixel_line_s(pixel_color),
{
    let r: u32 = pixel_color & 0xff;
    let g: u32 = (pixel_color >> 8) & 0xff;
    let b: u32 = (pixel_color >> 16) & 0xff;
    let mut out: Vec<u8> = dec_bytes(r);
    out.push(32);
    let mut gd: Vec<u8> = dec_bytes(g);
    out.append(&mut gd);
    out.push(32);
    let mut bd: Vec<u8> = dec_bytes(b);
    out.append(&mut bd);
    out.push(10);
    proof {
        assert(out@ =~= pixel_line_s(pixel_color));
    }
    out
}

/// The whole plain-text image of a canvas, top row first.
pub fn ppm_bytes(canvas: &Canvas) -> (out: Vec<u8>)
    ensures
        out@ == ppm_s(*canvas),
{
    let mut out: Vec<u8> = Vec::new();
    out.push(80);
    out.push(51);
    out.push(10);
    let mut wd: Vec<u8> = dec_bytes(canvas.width);
    out.append(&mut wd);
    out.push(32);
    let mut hd: Vec<u8> = dec_bytes(canvas.height);
    out.append(&mut hd);
    out.push(10);
    out.push(50);
    out.push(53);
    out.push(53);
    out.push(10);
    proof {
        assert(out@ =~= ppm_header_s(canvas.width as int, canvas.height as int));
        assert(ppm_pixels_s(canvas.data@, 0) =~= Seq::<u8>::empty());
        assert(out@ =~= ppm_header_s(canvas.width as int, canvas.height as int) + ppm_pixels_s(
            canvas.data@,
            0,
        ));
    }
    let n: usize = canvas.data.len();
    let mut i: usize = 0;
    while i < n
        invariant
            i <= n,
            n == canvas.data@.len(),
            out@ == ppm_header_s(canvas.width as int, canvas.height as int) + ppm_pixels_s(
                canvas.data@,
                i as int,
            ),
        decreases n - i,
    {
        let mut line: Vec<u8> = write_color(canvas.data[i]);
        out.append(&mut line);
        proof {
            assert(out@ =~= ppm_header_s(canvas.width as int, canvas.height as int)
                + ppm_pixels_s(canvas.data@, i + 1));
        }
        i = i + 1;
    }
    out
}

} // verus!
