use raytracing::rt::ray::Ray;
use raytracing::vec3::{Vec3, Vec4};

const ONE: i128 = 65536;

#[test]
fn dot_product_exact() {
    let a = Vec3 { x: ONE, y: 2 * ONE, z: 3 * ONE };
    let b = Vec3 { x: 4 * ONE, y: 5 * ONE, z: 6 * ONE };
    assert_eq!(a.dot(&b), 32 * ONE);
    assert_eq!(a.lenght_squared(), 14 * ONE);
}

#[test]
fn cross_product_of_axes() {
    let x = Vec3 { x: ONE, y: 0, z: 0 };
    let y = Vec3 { x: 0, y: ONE, z: 0 };
    let c = x.cross(&y);
    assert_eq!((c.x, c.y, c.z), (0, 0, ONE));
    let back = y.cross(&x);
    assert_eq!((back.x, back.y, back.z), (0, 0, -ONE));
}

#[test]
fn length_of_pythagorean_triple() {
    let v = Vec3 { x: 3 * ONE, y: 4 * ONE, z: 0 };
    assert_eq!(v.length(), 5 * ONE);
}

#[test]
fn unit_vector_rescales() {
    let v = Vec3 { x: 0, y: 3 * ONE, z: 4 * ONE };
    let u = Vec3::unit_vector(&v);
    assert_eq!((u.x, u.y, u.z), (0, 39321, 52428));
    let axis = Vec3 { x: 0, y: 0, z: -7 * ONE };
    let u = Vec3::unit_vector(&axis);
    assert_eq!((u.x, u.y, u.z), (0, 0, -ONE));
}

#[test]
fn componentwise_arithmetic() {
    let a = Vec3 { x: ONE, y: -ONE, z: 5 };
    let b = Vec3 { x: 2, y: 3, z: -5 };
    let s = a.add(&b);
    assert_eq!((s.x, s.y, s.z), (ONE + 2, -ONE + 3, 0));
    let d = a.sub(&b);
    assert_eq!((d.x, d.y, d.z), (ONE - 2, -ONE - 3, 10));
    let n = a.neg();
    assert_eq!((n.x, n.y, n.z), (-ONE, ONE, -5));
    let h = a.scale(32768);
    assert_eq!((h.x, h.y, h.z), (32768, -32768, 2));
}

#[test]
fn accessors_and_arrays() {
    let v = Vec3::new(1, 2, 3);
    assert_eq!((v.x(), v.y(), v.z()), (1, 2, 3));
    assert_eq!(v.to_array(), [1, 2, 3, 0]);
    let w = Vec3::from_array([9, 8, 7, 99]);
    assert_eq!((w.x, w.y, w.z), (9, 8, 7));
}

#[test]
fn four_component_helpers() {
    let c = Vec4 { x: -5, y: 70000, z: 32768, w: ONE };
    let clamped = c.clamp01();
    assert_eq!((clamped.x, clamped.y, clamped.z, clamped.w), (0, ONE, 32768, ONE));
    let sum = c.add(&Vec4 { x: 5, y: 1, z: 2, w: 3 });
    assert_eq!((sum.x, sum.y, sum.z, sum.w), (0, 70001, 32770, ONE + 3));
    let halved = Vec4::new(ONE, 2 * ONE, 0, ONE).scale(32768);
    assert_eq!((halved.x, halved.y, halved.z, halved.w), (32768, ONE, 0, 32768));
    let avg = Vec4 { x: 9, y: -9, z: 10, w: 0 }.div_int(3);
    assert_eq!((avg.x, avg.y, avg.z, avg.w), (3, -3, 3, 0));
}

#[test]
fn ray_travels_along_direction() {
    let r = Ray::new(Vec3 { x: ONE, y: ONE, z: ONE }, Vec3 { x: 0, y: 0, z: -ONE });
    let p = r.at(2 * ONE);
    assert_eq!((p.x, p.y, p.z), (ONE, ONE, -ONE));
    assert_eq!((r.origin.x, r.direction.z), (ONE, -ONE));
}

#[test]
fn guarded_normalize_and_clamping() {
    let zero = Vec3 { x: 0, y: 0, z: 0 };
    let z = Vec3::unit_or_zero(&zero);
    assert_eq!((z.x, z.y, z.z), (0, 0, 0));
    let u = Vec3::unit_or_zero(&Vec3 { x: 0, y: -2 * ONE, z: 0 });
    assert_eq!((u.x, u.y, u.z), (0, -ONE, 0));
    let c = Vec3 { x: 3 * ONE, y: -3 * ONE, z: 5 }.clamp_box(ONE);
    assert_eq!((c.x, c.y, c.z), (ONE, -ONE, 5));
    let v4 = Vec4::from_vec3(&Vec3 { x: 1, y: 2, z: 3 }, 9);
    assert_eq!((v4.x, v4.y, v4.z, v4.w), (1, 2, 3, 9));
}
