use raytracing::camera::{Camera, CameraKey, KeyEvent};
use raytracing::vec3::Vec3;

const ONE: i128 = 65536;
const TAN_HALF_45: i128 = 27146;

fn test_camera() -> Camera {
    Camera::new(TAN_HALF_45, 6554, 100 * ONE)
}

#[test]
fn construction_defaults() {
    let c = test_camera();
    assert_eq!((c.position.x, c.position.y, c.position.z), (0, 0, 3 * ONE));
    assert_eq!((c.forward_direction.x, c.forward_direction.y, c.forward_direction.z),
        (0, 0, -ONE));
    assert_eq!((c.viewport_width, c.viewport_height), (400, 400));
    assert_eq!(c.get_ray_directions().len(), 0);
    assert_eq!(
        (c.lower_left_corner.x, c.lower_left_corner.y, c.lower_left_corner.z),
        (-ONE, -ONE, 2 * ONE),
    );
    assert!(!c.state.is_active);
    assert_eq!(c.get_rotation_speed(), 19661);
}

#[test]
fn resize_builds_the_ray_table() {
    let mut c = test_camera();
    c.on_resize(400, 400);
    assert_eq!(c.get_ray_directions().len(), 160000);
    let center = c.get_ray_directions()[200 + 200 * 400];
    assert_eq!((center.x, center.y, center.z), (0, 0, -ONE));
    let first = c.get_ray_directions()[0];
    assert_eq!((first.x, first.y, first.z), (-23423, -23423, -56548));
    let last = c.get_ray_directions()[159999];
    assert_eq!((last.x, last.y, last.z), (23335, 23335, -56620));
    for d in [first, last] {
        assert!(d.x.abs() <= ONE && d.y.abs() <= ONE && d.z < 0);
    }
}

#[test]
fn resize_to_same_size_is_a_no_op() {
    let mut c = test_camera();
    c.on_resize(64, 48);
    let ptr = c.ray_directions.as_ptr();
    let first = c.ray_directions[0];
    c.on_resize(64, 48);
    assert_eq!(c.ray_directions.as_ptr(), ptr);
    assert_eq!(c.ray_directions.len(), 64 * 48);
    assert_eq!(c.ray_directions[0], first);
}

#[test]
fn key_handling_sets_and_clears_speeds() {
    let mut c = test_camera();
    c.handle_input(KeyEvent { key: CameraKey::Forward, pressed: true });
    assert_eq!(c.state.forward_speed, 5 * ONE);
    c.handle_input(KeyEvent { key: CameraKey::Forward, pressed: true });
    assert_eq!(c.state.forward_speed, 5 * ONE);
    c.handle_input(KeyEvent { key: CameraKey::Up, pressed: true });
    assert_eq!(c.state.up_speed, 5 * ONE);
    c.handle_input(KeyEvent { key: CameraKey::Forward, pressed: false });
    assert_eq!(c.state.forward_speed, 0);
    c.handle_input(KeyEvent { key: CameraKey::Left, pressed: false });
    assert_eq!(c.state.left_speed, 0);
    let before = c.state;
    c.handle_input(KeyEvent { key: CameraKey::Other, pressed: true });
    assert_eq!(c.state.up_speed, before.up_speed);
    assert_eq!(c.state.forward_speed, before.forward_speed);
}

#[test]
fn inactive_update_only_remembers_the_pointer() {
    let mut c = test_camera();
    let rot = c.on_update(100, 200, ONE);
    assert!(rot.is_none());
    assert_eq!((c.position.x, c.position.y, c.position.z), (0, 0, 3 * ONE));
    assert_eq!((c.last_mouse_x, c.last_mouse_y), (100, 200));
}

#[test]
fn active_update_translates_along_forward() {
    let mut c = test_camera();
    c.state.is_active = true;
    c.handle_input(KeyEvent { key: CameraKey::Forward, pressed: true });
    let rot = c.on_update(0, 0, ONE);
    assert!(rot.is_none());
    assert_eq!((c.position.x, c.position.y, c.position.z), (0, 0, -2 * ONE));
    assert_eq!((c.last_mouse_x, c.last_mouse_y), (0, 0));
    assert_eq!(c.ray_directions.len(), 400 * 400);
}

#[test]
fn active_update_reports_the_pointer_delta() {
    let mut c = test_camera();
    c.state.is_active = true;
    let rot = c.on_update(65536, -65536, 0);
    let (dx, dy) = rot.expect("a moved pointer must request a rotation");
    assert_eq!((dx, dy), (131, -131));
}

#[test]
fn set_forward_normalizes_and_rebuilds() {
    let mut c = test_camera();
    c.on_resize(32, 32);
    c.set_forward(Vec3 { x: 0, y: 0, z: -3 * ONE });
    assert_eq!((c.forward_direction.x, c.forward_direction.y, c.forward_direction.z),
        (0, 0, -ONE));
    assert_eq!(c.ray_directions.len(), 32 * 32);
}

#[test]
fn fixed_frame_primary_rays() {
    let c = test_camera();
    let r = c.ray_to_coordinate(0, 0);
    assert_eq!((r.origin.x, r.origin.y, r.origin.z), (0, 0, 3 * ONE));
    assert_eq!((r.direction.x, r.direction.y, r.direction.z), (-ONE, -ONE, -ONE));
    let top = c.ray_to_coordinate(399, 399);
    assert_eq!((top.direction.x, top.direction.y, top.direction.z), (ONE, ONE, -ONE));
}
