use raytracing::scene::{Material, Sphere};
use raytracing::vec3::Vec3;

const ONE: i128 = 65536;

#[test]
fn default_material_is_matte_white() {
    let m = Material::default();
    assert_eq!((m.albedo.x, m.albedo.y, m.albedo.z), (ONE, ONE, ONE));
    assert_eq!(m.roughness, ONE);
    assert_eq!(m.metallic, 0);
    assert_eq!((m.emission_color.x, m.emission_color.y, m.emission_color.z), (0, 0, 0));
    assert_eq!(m.emission_power, 0);
}

#[test]
fn default_sphere_is_a_half_unit_ball() {
    let s = Sphere::default();
    assert_eq!((s.position.x, s.position.y, s.position.z), (0, 0, 0));
    assert_eq!(s.radius, 32768);
    assert_eq!(s.material_index, 0);
}

#[test]
fn new_sphere_uses_the_first_material() {
    let s = Sphere::new(Vec3 { x: 1, y: 2, z: 3 }, ONE);
    assert_eq!((s.position.x, s.position.y, s.position.z), (1, 2, 3));
    assert_eq!(s.radius, ONE);
    assert_eq!(s.material_index, 0);
}

#[test]
fn emission_scales_color_by_power() {
    let m = Material {
        albedo: Vec3 { x: 0, y: 0, z: 0 },
        roughness: 0,
        metallic: 0,
        emission_color: Vec3 { x: ONE, y: 2 * ONE, z: 0 },
        emission_power: 32768,
    };
    let e = m.get_emission();
    assert_eq!((e.x, e.y, e.z), (32768, ONE, 0));
}
