use raytracing::color::{quantize, write_color, Color};
use raytracing::renderer::Canvas;
use raytracing::rt::color::{color_to_u32, ppm_bytes, u32_to_color, write_color as write_packed};
use raytracing::vec3::{Vec3, Vec4};

#[test]
fn quantize_endpoints() {
    assert_eq!(quantize(0), 0);
    assert_eq!(quantize(65536), 255);
    assert_eq!(quantize(-5), 0);
    assert_eq!(quantize(2 * 65536), 255);
    assert_eq!(quantize(32768), 127);
}

#[test]
fn pack_known_colors() {
    let white = Vec4 { x: 65536, y: 65536, z: 65536, w: 65536 };
    assert_eq!(color_to_u32(&white), 0xffff_ffff);
    let opaque_black = Vec4 { x: 0, y: 0, z: 0, w: 65536 };
    assert_eq!(color_to_u32(&opaque_black), 0xff00_0000);
    let mixed = Vec4 { x: 65536, y: 0, z: 32768, w: 0 };
    assert_eq!(color_to_u32(&mixed), 0x007f_00ff);
}

#[test]
fn pack_of_unpack_round_trips() {
    for &p in &[0u32, 0xffff_ffff, 0x1234_5678, 0xdead_beef, 0xffe5_b299, 0x0000_0001] {
        assert_eq!(color_to_u32(&u32_to_color(p)), p);
    }
}

#[test]
fn unpack_of_pack_stays_within_one_step() {
    for &c in &[0i128, 1, 255, 256, 30000, 32768, 65535, 65536] {
        let color = Vec4 { x: c, y: c, z: c, w: c };
        let recovered = u32_to_color(color_to_u32(&color));
        for v in [recovered.x, recovered.y, recovered.z, recovered.w] {
            assert!(c - 257 <= v && v <= c);
        }
    }
}

#[test]
fn packed_pixel_text_line() {
    assert_eq!(write_packed(0x0001_0203), b"3 2 1\n");
    assert_eq!(write_packed(0x00ff_ffff), b"255 255 255\n");
    assert_eq!(write_packed(0), b"0 0 0\n");
}

#[test]
fn linear_color_text_line() {
    let c = Color { x: 65536, y: 0, z: 32768 };
    assert_eq!(write_color(&c), b"255 0 127\n");
    assert_eq!(write_color(&Vec3::black()), b"0 0 0\n");
}

#[test]
fn ppm_dump_of_small_canvas() {
    let mut canvas = Canvas::new(2, 1);
    canvas.data[0] = 0x0001_0203;
    canvas.data[1] = 0x00ff_ffff;
    let expected: Vec<u8> = b"P3\n2 1\n255\n3 2 1\n255 255 255\n".to_vec();
    assert_eq!(ppm_bytes(&canvas), expected);
}
