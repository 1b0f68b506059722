use raytracing::camera::Camera;
use raytracing::renderer::{Canvas, RaytracingRenderer, RendererSettings, State, T_FAR};
use raytracing::rt::ray::Ray;
use raytracing::scene::{Material, Scene, Sphere};
use raytracing::vec3::Vec3;

const ONE: i128 = 65536;
const TAN_HALF_45: i128 = 27146;
const SKY_PACKED: u32 = 0xffe5_b299;

fn flat_material(albedo: (i128, i128, i128)) -> Material {
    Material {
        albedo: Vec3 { x: albedo.0, y: albedo.1, z: albedo.2 },
        roughness: 0,
        metallic: 0,
        emission_color: Vec3 { x: 0, y: 0, z: 0 },
        emission_power: 0,
    }
}

fn two_sphere_scene() -> Scene {
    Scene {
        spheres: vec![
            Sphere { position: Vec3 { x: 85197, y: 0, z: 0 }, radius: ONE, material_index: 0 },
            Sphere { position: Vec3 { x: 0, y: 0, z: 0 }, radius: ONE, material_index: 1 },
        ],
        materials: vec![
            flat_material((ONE, 0, 32768)),
            flat_material((19661, 32768, 52429)),
        ],
    }
}

fn camera_sized(w: u32, h: u32) -> Camera {
    let mut c = Camera::new(TAN_HALF_45, 6554, 100 * ONE);
    c.on_resize(w, h);
    c
}

fn renderer_sized(w: u32, h: u32, accumulate: bool, use_threads: bool) -> RaytracingRenderer {
    RaytracingRenderer::new(Canvas::new(w, h), RendererSettings { accumulate, use_threads })
}

#[test]
fn empty_scene_pixel_is_pure_sky() {
    let scene = Scene { spheres: vec![], materials: vec![] };
    let camera = camera_sized(40, 40);
    let c = RaytracingRenderer::per_pixel(0, 0, 40, 1, &camera, &scene);
    assert_eq!((c.x, c.y, c.z, c.w), (39322, 45875, 58982, 2 * ONE));
    let c = RaytracingRenderer::per_pixel(39, 20, 40, 7, &camera, &scene);
    assert_eq!((c.x, c.y, c.z, c.w), (39322, 45875, 58982, 2 * ONE));
}

#[test]
fn head_on_trace_distance_is_range_minus_radius() {
    let scene = Scene {
        spheres: vec![Sphere { position: Vec3 { x: 0, y: 0, z: 0 }, radius: ONE, material_index: 0 }],
        materials: vec![flat_material((ONE, ONE, ONE))],
    };
    let ray = Ray::new(Vec3 { x: 0, y: 0, z: 3 * ONE }, Vec3 { x: 0, y: 0, z: -ONE });
    let payload = RaytracingRenderer::trace_ray(&ray, &scene);
    assert_eq!(payload.hit_distance, 2 * ONE);
    assert_eq!(payload.object_index, 0);
    assert_eq!(
        (payload.world_normal.x, payload.world_normal.y, payload.world_normal.z),
        (0, 0, ONE),
    );
    assert_eq!(
        (payload.world_position.x, payload.world_position.y, payload.world_position.z),
        (0, 0, ONE),
    );
}

#[test]
fn miss_reports_the_sentinel() {
    let scene = Scene { spheres: vec![], materials: vec![] };
    let ray = Ray::new(Vec3 { x: 0, y: 0, z: 3 * ONE }, Vec3 { x: 0, y: 0, z: -ONE });
    let payload = RaytracingRenderer::trace_ray(&ray, &scene);
    assert_eq!(payload.hit_distance, T_FAR);
}

#[test]
fn distant_hit_is_still_a_hit() {
    let scene = Scene {
        spheres: vec![Sphere { position: Vec3 { x: 0, y: 0, z: 0 }, radius: ONE, material_index: 0 }],
        materials: vec![flat_material((ONE, ONE, ONE))],
    };
    let ray = Ray::new(Vec3 { x: 0, y: 0, z: 8192 * ONE }, Vec3 { x: 0, y: 0, z: -ONE });
    let payload = RaytracingRenderer::trace_ray(&ray, &scene);
    assert_eq!(payload.hit_distance, 8191 * ONE);
    assert_eq!(payload.object_index, 0);
}

#[test]
fn frame_index_stays_at_one_without_accumulation() {
    let scene = two_sphere_scene();
    let camera = camera_sized(40, 40);
    let mut renderer = renderer_sized(40, 40, false, false);
    for _ in 0..4 {
        renderer.render(&scene, &camera);
        assert_eq!(renderer.frame_index, 1);
    }
}

#[test]
fn frame_index_counts_accumulated_frames() {
    let scene = two_sphere_scene();
    let camera = camera_sized(40, 40);
    let mut renderer = renderer_sized(40, 40, true, false);
    for expected in 2..6usize {
        renderer.render(&scene, &camera);
        assert_eq!(renderer.frame_index, expected);
    }
    renderer.reset_frame_index();
    assert_eq!(renderer.frame_index, 1);
    assert!(renderer.accumulation_data.iter().all(|a| (a.x, a.y, a.z, a.w) == (0, 0, 0, ONE)));
}

#[test]
fn resize_to_same_size_changes_nothing() {
    let mut renderer = renderer_sized(40, 30, false, false);
    let scene = two_sphere_scene();
    let camera = camera_sized(40, 30);
    renderer.render(&scene, &camera);
    let pixels = renderer.canvas.data.clone();
    let canvas_ptr = renderer.canvas.data.as_ptr();
    let canvas_capacity = renderer.canvas.data.capacity();
    let accum_ptr = renderer.accumulation_data.as_ptr();
    renderer.on_resize(40, 30);
    assert_eq!(renderer.canvas.data.as_ptr(), canvas_ptr);
    assert_eq!(renderer.canvas.data.capacity(), canvas_capacity);
    assert_eq!(renderer.accumulation_data.as_ptr(), accum_ptr);
    assert_eq!(renderer.canvas.data, pixels);
    assert_eq!((renderer.canvas.width, renderer.canvas.height), (40, 30));
}

#[test]
fn resize_reallocates_and_zero_fills() {
    let mut renderer = renderer_sized(8, 8, false, false);
    renderer.canvas.data[0] = 77;
    renderer.on_resize(16, 4);
    assert_eq!((renderer.canvas.width, renderer.canvas.height), (16, 4));
    assert_eq!(renderer.canvas.data.len(), 64);
    assert!(renderer.canvas.data.iter().all(|&p| p == 0));
    assert_eq!(renderer.accumulation_data.len(), 64);
    assert!(renderer.accumulation_data.iter().all(|a| (a.x, a.y, a.z, a.w) == (0, 0, 0, ONE)));
}

#[test]
fn canvas_resize_zero_fills() {
    let mut canvas = Canvas::new(2, 2);
    canvas.data[3] = 9;
    canvas.resize(3, 2);
    assert_eq!(canvas.data.len(), 6);
    assert!(canvas.data.iter().all(|&p| p == 0));
    canvas.resize(1, 2);
    assert_eq!(canvas.data.len(), 2);
    assert_eq!((canvas.data[0], canvas.data[1]), (0, 0));
}

#[test]
fn two_sphere_scenario_hits_center_and_misses_corners() {
    let scene = two_sphere_scene();
    let camera = camera_sized(400, 400);
    let mut renderer = renderer_sized(400, 400, false, false);
    renderer.render(&scene, &camera);
    let center = renderer.canvas.data[200 * 400 + 200];
    assert_eq!(center, 0xffe8_a278);
    let (r, g, b) = (center & 0xff, (center >> 8) & 0xff, (center >> 16) & 0xff);
    assert!(r > 0 && g > 0 && b > 0);
    assert!(r < g && g < b);
    assert_ne!(center, SKY_PACKED);
    assert_eq!(renderer.canvas.data[0], SKY_PACKED);
    assert_eq!(renderer.canvas.data[399], SKY_PACKED);
    assert_eq!(renderer.canvas.data[399 * 400], SKY_PACKED);
    assert_eq!(renderer.canvas.data[400 * 400 - 1], SKY_PACKED);
}

#[test]
fn sequential_and_threaded_frames_agree() {
    let mut scene = two_sphere_scene();
    scene.materials[0].roughness = 32768;
    scene.materials[1].roughness = ONE;
    let camera = camera_sized(64, 48);
    let mut sequential = renderer_sized(64, 48, true, false);
    let mut threaded = renderer_sized(64, 48, true, true);
    for _ in 0..3 {
        sequential.render(&scene, &camera);
        threaded.render(&scene, &camera);
        assert_eq!(sequential.canvas.data, threaded.canvas.data);
        assert_eq!(sequential.frame_index, threaded.frame_index);
        for (a, b) in sequential.accumulation_data.iter().zip(threaded.accumulation_data.iter()) {
            assert_eq!((a.x, a.y, a.z, a.w), (b.x, b.y, b.z, b.w));
        }
    }
}

#[test]
fn accumulated_averages_settle() {
    let mut scene = two_sphere_scene();
    scene.materials[1].roughness = ONE;
    let camera = camera_sized(40, 40);
    let mut renderer = renderer_sized(40, 40, true, false);
    let idx = 20 * 40 + 20;
    let mut previous: Option<i128> = None;
    for n in 1..=8i128 {
        renderer.render(&scene, &camera);
        let displayed = renderer.accumulation_data[idx].x / n;
        if let Some(before) = previous {
            let delta = (displayed - before).abs();
            assert!(delta <= 2 * ONE / n + 1);
        }
        previous = Some(displayed);
    }
}

#[test]
fn default_state_surface() {
    let s = State::default();
    assert!(!s.use_linear_filter && !s.use_threads);
    assert_eq!((s.canvas_width, s.canvas_height), (400, 270));
    assert_eq!(s.sphere_color, [ONE, ONE, ONE, ONE]);
    assert_eq!(s.last_render_time_ms, 0);
    assert!(s.error_msg.is_empty());
}
