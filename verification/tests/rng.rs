use raytracing::random::{
    pixel_seed, random_fx, random_signed_fx, random_u32, random_vec3fx, random_vec4fx,
};

#[test]
fn hash_known_values() {
    let mut s: u32 = 0;
    assert_eq!(random_u32(&mut s), 3232319850);
    assert_eq!(s, 3232319850);
    let mut s: u32 = 1;
    assert_eq!(random_u32(&mut s), 663891101);
    let mut s: u32 = 42;
    assert_eq!(random_u32(&mut s), 1462734105);
}

#[test]
fn hash_is_deterministic() {
    let mut a: u32 = 7;
    let mut b: u32 = 7;
    for _ in 0..10 {
        assert_eq!(random_u32(&mut a), random_u32(&mut b));
    }
}

#[test]
fn unit_draw_value_and_range() {
    let mut s: u32 = 7;
    let v = random_fx(&mut s);
    assert_eq!(s, 851741419);
    assert_eq!(v, 851741419 >> 16);
    for _ in 0..100 {
        let v = random_fx(&mut s);
        assert!(0 <= v && v < 65536);
    }
}

#[test]
fn signed_draws_cover_both_signs() {
    let mut s: u32 = 7;
    let mut saw_negative = false;
    let mut saw_positive = false;
    for _ in 0..100 {
        let v = random_signed_fx(&mut s);
        assert!(-65536 <= v && v < 65536);
        if v < 0 {
            saw_negative = true;
        }
        if v > 0 {
            saw_positive = true;
        }
    }
    assert!(saw_negative && saw_positive);
}

#[test]
fn vector_draw_known_components() {
    let mut s: u32 = 7;
    let v = random_vec3fx(&mut s);
    assert_eq!(v.x, 2 * (851741419i128 >> 16) - 65536);
    assert_eq!(v.y, 2 * (62190945i128 >> 16) - 65536);
    assert_eq!(v.z, 2 * (3501556970i128 >> 16) - 65536);
    assert_eq!(s, 3501556970);
}

#[test]
fn pixel_seed_mixes_position_and_frame() {
    assert_eq!(pixel_seed(200, 200, 400, 1), 2654355697);
    assert_ne!(pixel_seed(0, 0, 400, 1), pixel_seed(1, 0, 400, 1));
    assert_ne!(pixel_seed(5, 5, 400, 1), pixel_seed(5, 5, 400, 2));
    assert_eq!(pixel_seed(5, 5, 400, 3), pixel_seed(5, 5, 400, 3));
}

#[test]
fn four_component_draw_advances_four_times() {
    let mut s: u32 = 7;
    let v = random_vec4fx(&mut s);
    let mut s2: u32 = 7;
    let mut expect = [0i128; 4];
    for slot in expect.iter_mut() {
        *slot = random_signed_fx(&mut s2);
    }
    assert_eq!((v.x, v.y, v.z, v.w), (expect[0], expect[1], expect[2], expect[3]));
    assert_eq!(s, s2);
}
