//! The camera: pose, viewport, movement state and the cached per-pixel
//! ray-direction table.
//!
//! The table is the camera's central invariant: whenever it is non-empty it
//! holds, for every pixel, exactly the direction given by [`ray_dir_s`] —
//! the normalized device coordinates of the pixel, unprojected at depth one
//! (which reduces to scaling by the tangent of half the vertical field of
//! view and the aspect ratio) and rotated into world space through the
//! orthonormal look-at basis built from the forward direction.  Mutators
//! that change pose or viewport rebuild the table before returning.
//!
//! Trigonometry stays with the caller: construction takes the tangent of
//! half the vertical field of view, and pointer rotation is split in two —
//! [`Camera::on_update`] hands the scaled pointer delta back, and the caller
//! applies the rotation it computes through [`Camera::set_forward`].

use vstd::prelude::*;
use vstd::arithmetic::div_mod::{lemma_div_is_ordered, lemma_fundamental_div_mod_converse};
use crate::fx::{
    fx_mul, fx_mul_s, lemma_mag_mul_bound, lemma_trunc_div_mag, mag, trunc_div, ONE, SCALE,
};
use crate::rt::ray::Ray;
use crate::scene::COORD_MAX;
use crate::vec3::{
    add3_s, bounded3, clamp3_s, cross_s, fits3, lemma_cross3_bound, lemma_scale3_bound_by,
    neg3_s, scale3_s, sub3_s, unit_or_zero_s, Vec3, V3i,
};

verus! {

/// Translation speed a pressed key sets: five world units per second.
pub const MOVE_SPEED: i128 = 327680;

/// Rotation speed: 0.3 radians per unit of scaled pointer travel.
pub const ROTATION_SPEED: i128 = 19661;

/// Factor turning raw pointer travel into rotation input: 0.002.
pub const POINTER_SCALE: i128 = 131;

/// Largest accepted tangent of half the field of view: 16.
pub const TAN_MAX: i128 = 1048576;

/// Largest accepted viewport side, in pixels.
pub const VIEWPORT_MAX: u32 = 4096;

/// Largest accepted pointer coordinate magnitude.
pub const POINTER_MAX: i128 = 0x4000_0000_0000;

/// The directional keys the camera reacts to.
#[derive(Clone, Copy, Debug, PartialEq, Eq, Structural)]
pub enum CameraKey {
    Forward,
    Backward,
    Left,
    Right,
    Down,
    Up,
    Other,
}

/// A press or release of one key.
#[derive(Clone, Copy, Debug, PartialEq, Eq, Structural)]
pub struct KeyEvent {
    pub key: CameraKey,
    pub pressed: bool,
}

/// Per-axis movement speeds and the pointer-capture flag.
#[derive(Clone, Copy, Debug)]
pub struct CameraState {
    pub up_speed: i128,
    pub down_speed: i128,
    pub left_speed: i128,
    pub right_speed: i128,
    pub forward_speed: i128,
    pub backward_speed: i128,
    pub is_active: bool,
}

/// The camera.
pub struct Camera {
    pub position: Vec3,
    pub forward_direction: Vec3,
    pub tan_half_fov: i128,
    pub near_clip: i128,
    pub far_clip: i128,
    pub last_mouse_x: i128,
    pub last_mouse_y: i128,
    pub viewport_width: u32,
    pub viewport_height: u32,
    pub horizontal: Vec3,
    pub vertical: Vec3,
    pub lower_left_corner: Vec3,
    pub state: CameraState,
    pub ray_directions: Vec<Vec3>,
}

/// The world up direction.
pub open spec fn up_v() -> V3i {
    V3i { x: 0, y: ONE as int, z: 0 }
}

/// Normalized device coordinate of index `i` out of `n`: `2 * (i / n) - 1`.
pub open spec fn ndc_s(i: int, n: int) -> int {
    2 * trunc_div(i * (SCALE as int), n) - SCALE as int
}

/// The viewport's aspect ratio, width over height.
pub open spec fn aspect_s(w: int, h: int) -> int {
    trunc_div(w * (SCALE as int), h)
}

/// The side vector of the look-at basis: the normalized cross product of the
/// normalized forward direction and world up.
pub open spec fn basis_side_s(fwd: V3i) -> V3i {
    unit_or_zero_s(cross_s(unit_or_zero_s(fwd), up_v()))
}

/// The up vector of the look-at basis.
pub open spec fn basis_up_s(fwd: V3i) -> V3i {
    cross_s(basis_side_s(fwd), unit_or_zero_s(fwd))
}

/// The world-space ray direction of one pixel, given the look-at basis: the
/// pixel's normalized device coordinates are unprojected at depth one into a
/// view-space direction, normalized, rotated into world space through the
/// basis, and normalized again.
pub open spec fn ray_dir_from_basis_s(
    s: V3i,
    u: V3i,
    f: V3i,
    tan: int,
    w: int,
    h: int,
    x: int,
    y: int,
) -> V3i {
    let target = V3i {
        x: fx_mul_s(ndc_s(x, w), fx_mul_s(tan, aspect_s(w, h))),
        y: fx_mul_s(ndc_s(y, h), tan),
        z: -(ONE as int),
    };
    let vd = unit_or_zero_s(target);
    unit_or_zero_s(
        add3_s(add3_s(scale3_s(s, vd.x), scale3_s(u, vd.y)), scale3_s(neg3_s(f), vd.z)),
    )
}

/// The world-space ray direction of one pixel, given the camera's forward
/// direction, tangent of half the field of view, and viewport.
pub open spec fn ray_dir_s(fwd: V3i, tan: int, w: int, h: int, x: int, y: int) -> V3i {
    ray_dir_from_basis_s(
        basis_side_s(fwd),
        basis_up_s(fwd),
        unit_or_zero_s(fwd),
        tan,
        w,
        h,
        x,
        y,
    )
}

/// The ray-direction table holds exactly the direction of every pixel of the
/// viewport, in row-major order.
pub open spec fn table_ok(c: Camera) -> bool {
    &&& c.ray_directions@.len() == c.viewport_width * c.viewport_height
    &&& forall|i: int|
        0 <= i < c.ray_directions@.len() ==> (#[trigger] c.ray_directions@[i]).m() == ray_dir_s(
            c.forward_direction.m(),
            c.tan_half_fov as int,
            c.viewport_width as int,
            c.viewport_height as int,
            i % (c.viewport_width as int),
            i / (c.viewport_width as int),
        )
}

/// Every entry of the ray-direction table is bounded by the fixed-point one.
pub open spec fn table_bounded(c: Camera) -> bool {
    forall|i: int|
        0 <= i < c.ray_directions@.len() ==> bounded3(
            (#[trigger] c.ray_directions@[i]).m(),
            SCALE as int,
        )
}

/// The camera's well-formedness: pose, parameters and movement state within
/// their bounds, and the ray table either still empty or matching the pose
/// and viewport.
pub open spec fn camera_wf(c: Camera) -> bool {
    &&& bounded3(c.position.m(), COORD_MAX as int)
    &&& bounded3(c.forward_direction.m(), SCALE as int)
    &&& 0 <= c.tan_half_fov <= TAN_MAX
    &&& mag(c.near_clip as int) <= COORD_MAX as int
    &&& mag(c.far_clip as int) <= COORD_MAX as int
    &&& mag(c.last_mouse_x as int) <= POINTER_MAX as int
    &&& mag(c.last_mouse_y as int) <= POINTER_MAX as int
    &&& 0 < c.viewport_width <= VIEWPORT_MAX
    &&& 0 < c.viewport_height <= VIEWPORT_MAX
    &&& bounded3(c.horizontal.m(), 2 * (ONE as int))
    &&& bounded3(c.vertical.m(), 2 * (ONE as int))
    &&& bounded3(c.lower_left_corner.m(), (COORD_MAX as int) + 3 * (ONE as int))
    &&& camera_state_wf(c.state)
    &&& (c.ray_directions@.len() == 0 || table_ok(c))
    &&& table_bounded(c)
}

/// Every speed lies between zero and the key-press speed.
pub open spec fn camera_state_wf(st: CameraState) -> bool {
    &&& 0 <= st.up_speed <= MOVE_SPEED
    &&& 0 <= st.down_speed <= MOVE_SPEED
    &&& 0 <= st.left_speed <= MOVE_SPEED
    &&& 0 <= st.right_speed <= MOVE_SPEED
    &&& 0 <= st.forward_speed <= MOVE_SPEED
    &&& 0 <= st.backward_speed <= MOVE_SPEED
}

/// The movement state after one key press or release: a press sets the
/// axis's speed, a release zeroes it, and anything else changes nothing.
pub open spec fn handle_input_s(st: CameraState, input: KeyEvent) -> CameraState {
    let v: i128 = if input.pressed {
        MOVE_SPEED
    } else {
        0
    };
    match input.key {
        CameraKey::Forward => CameraState { forward_speed: v, ..st },
        CameraKey::Backward => CameraState { backward_speed: v, ..st },
        CameraKey::Left => CameraState { left_speed: v, ..st },
        CameraKey::Right => CameraState { right_speed: v, ..st },
        CameraKey::Down => CameraState { down_speed: v, ..st },
        CameraKey::Up => CameraState { up_speed: v, ..st },
        CameraKey::Other => st,
    }
}

/// Handling the same key event twice leaves the same state as handling it
/// once: key handling is idempotent.
pub proof fn lemma_handle_input_idempotent(st: CameraState, input: KeyEvent)
    ensures
        handle_input_s(handle_input_s(st, input), input) == handle_input_s(st, input),
{
}

/// The camera position after one update step: each axis speed difference,
/// scaled by the time step, moves the position along the forward, right and
/// up directions; the result is clamped to the world bounds.
pub open spec fn updated_position_s(c: Camera, ts: int) -> V3i {
    let f = c.forward_direction.m();
    let right = cross_s(f, up_v());
    let p1 = add3_s(
        c.position.m(),
        scale3_s(f, fx_mul_s(c.state.forward_speed - c.state.backward_speed, ts)),
    );
    let p2 = add3_s(p1, scale3_s(right, fx_mul_s(c.state.right_speed - c.state.left_speed, ts)));
    let p3 = add3_s(p2, scale3_s(up_v(), fx_mul_s(c.state.up_speed - c.state.down_speed, ts)));
    clamp3_s(p3, COORD_MAX as int)
}

/// The scaled pointer delta of one update step.
pub open spec fn pointer_delta_s(c: Camera, mx: int, my: int) -> (int, int) {
    (
        fx_mul_s(mx - c.last_mouse_x, POINTER_SCALE as int),
        fx_mul_s(my - c.last_mouse_y, POINTER_SCALE as int),
    )
}

impl Camera {
    /// A camera at `(0, 0, 3)` looking along the negative z axis, with an
    /// empty ray table; the table is built by the first resize.  The caller
    /// supplies the tangent of half the vertical field of view.
    pub fn new(tan_half_fov: i128, near_clip: i128, far_clip: i128) -> (r: Camera)
        requires
            0 <= tan_half_fov <= TAN_MAX,
            mag(near_clip as int) <= COORD_MAX as int,
            mag(far_clip as int) <= COORD_MAX as int,
        ensures
            camera_wf(r),
            r.position.m() == (V3i { x: 0, y: 0, z: 3 * (ONE as int) }),
            r.forward_direction.m() == (V3i { x: 0, y: 0, z: -(ONE as int) }),
            r.tan_half_fov == tan_half_fov,
            r.near_clip == near_clip,
            r.far_clip == far_clip,
            r.viewport_width == 400,
            r.viewport_height == 400,
            r.ray_directions@.len() == 0,
            r.state.is_active == false,
            r.state == (CameraState {
                up_speed: 0,
                down_speed: 0,
                left_speed: 0,
                right_speed: 0,
                forward_speed: 0,
                backward_speed: 0,
                is_active: false,
            }),
            r.lower_left_corner.m() == sub3_s(
                sub3_s(
                    sub3_s(r.position.m(), (V3i { x: ONE as int, y: 0, z: 0 })),
                    (V3i { x: 0, y: ONE as int, z: 0 }),
                ),
                (V3i { x: 0, y: 0, z: ONE as int }),
            ),
    {
        let position = Vec3 { x: 0, y: 0, z: 3 * ONE };
        let direction = Vec3 { x: 0, y: 0, z: -ONE };
        let horizontal = Vec3 { x: 2 * ONE, y: 0, z: 0 };
        let vertical = Vec3 { x: 0, y: 2 * ONE, z: 0 };
        let half_h = Vec3 { x: ONE, y: 0, z: 0 };
        let half_v = Vec3 { x: 0, y: ONE, z: 0 };
        let focal = Vec3 { x: 0, y: 0, z: ONE };
        let lower_left_corner = position.sub(&half_h).sub(&half_v).sub(&focal);
        Camera {
            position,
            forward_direction: direction,
            tan_half_fov,
            near_clip,
            far_clip,
            last_mouse_x: 0,
            last_mouse_y: 0,
            viewport_width: 400,
            viewport_height: 400,
            horizontal,
            vertical,
            lower_left_corner,
            state: CameraState {
                up_speed: 0,
                down_speed: 0,
                left_speed: 0,
                right_speed: 0,
                forward_speed: 0,
                backward_speed: 0,
                is_active: false,
            },
            ray_directions: Vec::new(),
        }
    }

    /// The primary ray through viewport coordinate `(x, y)` of the fixed
    /// 2-by-2, focal-length-one frame set up at construction.
    pub fn ray_to_coordinate(&self, x: u32, y: u32) -> (r: Ray)
        requires
            camera_wf(*self),
            2 <= self.viewport_width,
            2 <= self.viewport_height,
        ensures
            r.origin == self.position,
            r.direction.m() == sub3_s(
                add3_s(
                    add3_s(
                        self.lower_left_corner.m(),
                        scale3_s(
                            self.horizontal.m(),
                            trunc_div(x * (SCALE as int), self.viewport_width - 1),
                        ),
                    ),
                    scale3_s(
                        self.vertical.m(),
                        trunc_div(y * (SCALE as int), self.viewport_height - 1),
                    ),
                ),
                self.position.m(),
            ),
    {
        let u: i128 = ratio(x, self.viewport_width);
        let v: i128 = ratio(y, self.viewport_height);
        proof {
            lemma_scale3_bound_by(
                self.horizontal.m(),
                u as int,
                2 * (ONE as int),
                0x1_0000_0000_0000int,
                0x2_0000_0000_0000int,
            );
            lemma_scale3_bound_by(
                self.vertical.m(),
                v as int,
                2 * (ONE as int),
                0x1_0000_0000_0000int,
                0x2_0000_0000_0000int,
            );
        }
        let swept = self.lower_left_corner.add(&self.horizontal.scale(u)).add(
            &self.vertical.scale(v),
        );
        Ray::new(self.position, swept.sub(&self.position))
    }

    /// One per-frame update.  Movement keys translate the position along the
    /// camera axes, scaled by the time step, and a changed position rebuilds
    /// the ray table.  While the camera is inactive the pointer position is
    /// only remembered.  When the camera is active and the pointer moved,
    /// the scaled pointer delta is returned so that the caller can turn it
    /// into a rotation and apply it through [`Camera::set_forward`].
    pub fn on_update(&mut self, mouse_x: i128, mouse_y: i128, ts: i128) -> (rot: Option<
        (i128, i128),
    >)
        requires
            camera_wf(*old(self)),
            mag(mouse_x as int) <= POINTER_MAX as int,
            mag(mouse_y as int) <= POINTER_MAX as int,
            0 <= ts <= COORD_MAX,
        ensures
            camera_wf(*final(self)),
            !old(self).state.is_active ==> (*final(self) == (Camera {
                last_mouse_x: mouse_x,
                last_mouse_y: mouse_y,
                ..*old(self)
            }) && rot is None),
            old(self).state.is_active ==> {
                &&& final(self).position.m() == updated_position_s(*old(self), ts as int)
                &&& final(self).forward_direction == old(self).forward_direction
                &&& final(self).tan_half_fov == old(self).tan_half_fov
                &&& final(self).viewport_width == old(self).viewport_width
                &&& final(self).viewport_height == old(self).viewport_height
                &&& final(self).state == old(self).state
                &&& final(self).last_mouse_x == old(self).last_mouse_x
                &&& final(self).last_mouse_y == old(self).last_mouse_y
                &&& final(self).horizontal == old(self).horizontal
                &&& final(self).vertical == old(self).vertical
                &&& final(self).lower_left_corner == old(self).lower_left_corner
                &&& (final(self).position == old(self).position ==> final(self).ray_directions
                    == old(self).ray_directions)
                &&& (final(self).position != old(self).position ==> table_ok(*final(self)))
                &&& (rot is Some) == (pointer_delta_s(*old(self), mouse_x as int, mouse_y as int)
                    != ((0int, 0int)))
                &&& (rot matches Some(d) ==> d.0 == pointer_delta_s(
                    *old(self),
                    mouse_x as int,
                    mouse_y as int,
                ).0 && d.1 == pointer_delta_s(*old(self), mouse_x as int, mouse_y as int).1)
            },
    {
        proof {
            lemma_mag_mul_bound(
                mouse_x - self.last_mouse_x,
                POINTER_SCALE as int,
                2 * (POINTER_MAX as int),
                POINTER_SCALE as int,
            );
            lemma_mag_mul_bound(
                mouse_y - self.last_mouse_y,
                POINTER_SCALE as int,
                2 * (POINTER_MAX as int),
                POINTER_SCALE as int,
            );
        }
        let dx: i128 = fx_mul(mouse_x - self.last_mouse_x, POINTER_SCALE);
        let dy: i128 = fx_mul(mouse_y - self.last_mouse_y, POINTER_SCALE);
        if !self.state.is_active {
            self.last_mouse_x = mouse_x;
            self.last_mouse_y = mouse_y;
            return None;
        }
        let curr_position: Vec3 = self.position;
        let up = Vec3 { x: 0, y: ONE, z: 0 };
        let right: Vec3 = self.forward_direction.cross(&up);
        proof {
            lemma_cross3_bound(self.forward_direction.m(), up.m(), SCALE as int, SCALE as int);
        }
        proof {
            lemma_mag_mul_bound(
                (self.state.forward_speed - self.state.backward_speed) as int,
                ts as int,
                MOVE_SPEED as int,
                COORD_MAX as int,
            );
            lemma_mag_mul_bound(
                (self.state.right_speed - self.state.left_speed) as int,
                ts as int,
                MOVE_SPEED as int,
                COORD_MAX as int,
            );
            lemma_mag_mul_bound(
                (self.state.up_speed - self.state.down_speed) as int,
                ts as int,
                MOVE_SPEED as int,
                COORD_MAX as int,
            );
        }
        let kf: i128 = fx_mul(self.state.forward_speed - self.state.backward_speed, ts);
        let kr: i128 = fx_mul(self.state.right_speed - self.state.left_speed, ts);
        let ku: i128 = fx_mul(self.state.up_speed - self.state.down_speed, ts);
        proof {
            lemma_trunc_div_mag((self.state.forward_speed - self.state.backward_speed) * ts,
                SCALE as int);
            lemma_trunc_div_mag((self.state.right_speed - self.state.left_speed) * ts,
                SCALE as int);
            lemma_trunc_div_mag((self.state.up_speed - self.state.down_speed) * ts, SCALE as int);
            lemma_div_is_ordered(
                mag((self.state.forward_speed - self.state.backward_speed) * ts),
                0xa00_0000_0000int,
                SCALE as int,
            );
            lemma_div_is_ordered(
                mag((self.state.right_speed - self.state.left_speed) * ts),
                0xa00_0000_0000int,
                SCALE as int,
            );
            lemma_div_is_ordered(
                mag((self.state.up_speed - self.state.down_speed) * ts),
                0xa00_0000_0000int,
                SCALE as int,
            );
            lemma_scale3_bound_by(self.forward_direction.m(), kf as int, SCALE as int,
                0xa00_0000int, 0xa00_0000int);
            lemma_scale3_bound_by(right.m(), kr as int, 2 * (SCALE as int), 0xa00_0000int,
                2 * 0xa00_0000int);
            lemma_scale3_bound_by(up_v(), ku as int, SCALE as int, 0xa00_0000int,
                0xa00_0000int);
        }
        let moved_pos = self.position.add(&self.forward_direction.scale(kf)).add(
            &right.scale(kr),
        ).add(&up.scale(ku));
        self.position = moved_pos.clamp_box(COORD_MAX);
        if self.position != curr_position {
            self.recalculate_ray_directions();
        }
        if dx != 0 || dy != 0 {
            Some((dx, dy))
        } else {
            None
        }
    }

    /// Points the camera along a new forward direction (normalized, or kept
    /// zero when degenerate) and rebuilds the ray table.  This is the second
    /// half of pointer rotation: the caller turns the delta returned by
    /// [`Camera::on_update`] into a direction.
    pub fn set_forward(&mut self, dir: Vec3) -> (r: ())
        requires
            camera_wf(*old(self)),
            fits3(dir.m()),
        ensures
            camera_wf(*final(self)),
            final(self).forward_direction.m() == unit_or_zero_s(dir.m()),
            final(self).position == old(self).position,
            final(self).viewport_width == old(self).viewport_width,
            final(self).viewport_height == old(self).viewport_height,
            final(self).tan_half_fov == old(self).tan_half_fov,
            final(self).state == old(self).state,
            table_ok(*final(self)),
    {
        self.forward_direction = Vec3::unit_or_zero(&dir);
        self.recalculate_ray_directions();
    }

    /// Adopts a new viewport size and rebuilds the ray table; a resize to
    /// the current size, once the table exists, changes nothing at all.
    pub fn on_resize(&mut self, width: u32, height: u32)
        requires
            camera_wf(*old(self)),
            0 < width <= VIEWPORT_MAX,
            0 < height <= VIEWPORT_MAX,
        ensures
            camera_wf(*final(self)),
            width == old(self).viewport_width && height == old(self).viewport_height && old(
                self,
            ).ray_directions@.len() > 0 ==> *final(self) == *old(self),
            !(width == old(self).viewport_width && height == old(self).viewport_height && old(
                self,
            ).ray_directions@.len() > 0) ==> {
                &&& *final(self) == (Camera {
                    viewport_width: width,
                    viewport_height: height,
                    ray_directions: final(self).ray_directions,
                    ..*old(self)
                })
                &&& table_ok(*final(self))
            },
    {
        if width == self.viewport_width && height == self.viewport_height
            && self.ray_directions.len() > 0 {
            return ;
        }
        self.viewport_width = width;
        self.viewport_height = height;
        self.recalculate_ray_directions();
    }

    /// Applies one key press or release to the movement state.
    pub fn handle_input(&mut self, input: KeyEvent)
        requires
            camera_wf(*old(self)),
        ensures
            camera_wf(*final(self)),
            *final(self) == (Camera { state: handle_input_s(old(self).state, input), ..*old(self) }),
    {
        let speed: i128 = if input.pressed {
            MOVE_SPEED
        } else {
            0
        };
        match input.key {
            CameraKey::Forward => self.state.forward_speed = speed,
            CameraKey::Backward => self.state.backward_speed = speed,
            CameraKey::Left => self.state.left_speed = speed,
            CameraKey::Right => self.state.right_speed = speed,
            CameraKey::Down => self.state.down_speed = speed,
            CameraKey::Up => self.state.up_speed = speed,
            CameraKey::Other => {},
        }
    }

    /// Read access to the ray-direction table.
    pub fn get_ray_directions(&self) -> (r: &Vec<Vec3>)
        ensures
            r == &self.ray_directions,
    {
        &self.ray_directions
    }

    /// The rotation speed: 0.3.
    pub fn get_rotation_speed(&self) -> (r: i128)
        ensures
            r == ROTATION_SPEED,
    {
        ROTATION_SPEED
    }

    /// Rebuilds the ray-direction table for the current pose and viewport.
    fn recalculate_ray_directions(&mut self)
        requires
            bounded3(old(self).forward_direction.m(), SCALE as int),
            0 <= old(self).tan_half_fov <= TAN_MAX,
            0 < old(self).viewport_width <= VIEWPORT_MAX,
            0 < old(self).viewport_height <= VIEWPORT_MAX,
        ensures
            *final(self) == (Camera { ray_directions: final(self).ray_directions, ..*old(self) }),
            table_ok(*final(self)),
            table_bounded(*final(self)),
    {
        let w: u32 = self.viewport_width;
        let h: u32 = self.viewport_height;
        let up = Vec3 { x: 0, y: ONE, z: 0 };
        let f: Vec3 = Vec3::unit_or_zero(&self.forward_direction);
        let cr: Vec3 = f.cross(&up);
        proof {
            lemma_cross3_bound(f.m(), up.m(), SCALE as int, SCALE as int);
        }
        let s: Vec3 = Vec3::unit_or_zero(&cr);
        let u: Vec3 = s.cross(&f);
        proof {
            lemma_cross3_bound(s.m(), f.m(), SCALE as int, SCALE as int);
        }
        let mut table: Vec<Vec3> = Vec::new();
        let mut y: u32 = 0;
        while y < h
            invariant
                0 <= y <= h,
                0 < w <= VIEWPORT_MAX,
                0 < h <= VIEWPORT_MAX,
                bounded3(f.m(), SCALE as int),
                bounded3(s.m(), SCALE as int),
                bounded3(u.m(), 2 * (SCALE as int)),
                f.m() == unit_or_zero_s(self.forward_direction.m()),
                s.m() == basis_side_s(self.forward_direction.m()),
                u.m() == basis_up_s(self.forward_direction.m()),
                0 <= self.tan_half_fov <= TAN_MAX,
                w == self.viewport_width,
                h == self.viewport_height,
                *self == (Camera { ray_directions: self.ray_directions, ..*old(self) }),
                table@.len() == y * w,
                forall|i: int|
                    0 <= i < table@.len() ==> (#[trigger] table@[i]).m() == ray_dir_s(
                        self.forward_direction.m(),
                        self.tan_half_fov as int,
                        w as int,
                        h as int,
                        i % (w as int),
                        i / (w as int),
                    ) && bounded3(table@[i].m(), SCALE as int),
            decreases h - y,
        {
            let mut x: u32 = 0;
            while x < w
                invariant
                    0 <= x <= w,
                    0 <= y < h,
                    0 < w <= VIEWPORT_MAX,
                    0 < h <= VIEWPORT_MAX,
                    bounded3(f.m(), SCALE as int),
                    bounded3(s.m(), SCALE as int),
                    bounded3(u.m(), 2 * (SCALE as int)),
                    f.m() == unit_or_zero_s(self.forward_direction.m()),
                    s.m() == basis_side_s(self.forward_direction.m()),
                    u.m() == basis_up_s(self.forward_direction.m()),
                    0 <= self.tan_half_fov <= TAN_MAX,
                    w == self.viewport_width,
                    h == self.viewport_height,
                    *self == (Camera { ray_directions: self.ray_directions, ..*old(self) }),
                    table@.len() == y * w + x,
                    forall|i: int|
                        0 <= i < table@.len() ==> (#[trigger] table@[i]).m() == ray_dir_s(
                            self.forward_direction.m(),
                            self.tan_half_fov as int,
                            w as int,
                            h as int,
                            i % (w as int),
                            i / (w as int),
                        ) && bounded3(table@[i].m(), SCALE as int),
                decreases w - x,
            {
                let d: Vec3 = Self::ray_direction_for(&s, &u, &f, self.tan_half_fov, w, h, x, y);
                proof {
                    lemma_fundamental_div_mod_converse(
                        (y * w + x) as int,
                        w as int,
                        y as int,
                        x as int,
                    );
                }
                table.push(d);
                x = x + 1;
            }
            y = y + 1;
            proof {
                assert((y - 1) * w + w == y * w) by (nonlinear_arith);
            }
        }
        proof {
            assert(h * w == w * h) by (nonlinear_arith);
        }
        self.ray_directions = table;
    }

    /// The world-space ray direction of one pixel, from the look-at basis.
    fn ray_direction_for(s: &Vec3, u: &Vec3, f: &Vec3, tan: i128, w: u32, h: u32, x: u32, y: u32)
        -> (r: Vec3)
        requires
            bounded3(s.m(), SCALE as int),
            bounded3(u.m(), 2 * (SCALE as int)),
            bounded3(f.m(), SCALE as int),
            0 <= tan <= TAN_MAX,
            0 < w <= VIEWPORT_MAX,
            0 < h <= VIEWPORT_MAX,
            x < w,
            y < h,
        ensures
            r.m() == ray_dir_from_basis_s(
                s.m(),
                u.m(),
                f.m(),
                tan as int,
                w as int,
                h as int,
                x as int,
                y as int,
            ),
            bounded3(r.m(), SCALE as int),
    {
        let ndcx: i128 = ndc(x, w);
        let ndcy: i128 = ndc(y, h);
        proof {
            assert(0 <= (w as int) * (SCALE as int) <= 0x1000_0000int) by (nonlinear_arith)
                requires
                    0 < w <= 4096,
            ;
        }
        let aspq: u128 = (w as u128 * 65536) / (h as u128);
        proof {
            assert(aspq <= (w as int) * 65536) by (nonlinear_arith)
                requires
                    aspq as int == ((w as int) * 65536) / (h as int),
                    h >= 1,
                    w >= 0,
            ;
        }
        let aspect: i128 = aspq as i128;
        proof {
            lemma_mag_mul_bound(tan as int, aspect as int, TAN_MAX as int, 0x1000_0000int);
        }
        let ta: i128 = fx_mul(tan, aspect);
        proof {
            lemma_trunc_div_mag((tan as int) * (aspect as int), SCALE as int);
            lemma_div_is_ordered(
                mag((tan as int) * (aspect as int)),
                0x1_0000_0000_0000int,
                SCALE as int,
            );
            lemma_mag_mul_bound(ndcx as int, ta as int, ONE as int, 0x1_0000_0000int);
            lemma_mag_mul_bound(ndcy as int, tan as int, ONE as int, TAN_MAX as int);
        }
        let tx: i128 = fx_mul(ndcx, ta);
        let ty: i128 = fx_mul(ndcy, tan);
        let target = Vec3 { x: tx, y: ty, z: -ONE };
        let vd: Vec3 = Vec3::unit_or_zero(&target);
        proof {
            lemma_scale3_bound_by(s.m(), vd.m().x, SCALE as int, SCALE as int, SCALE as int);
            lemma_scale3_bound_by(u.m(), vd.m().y, 2 * (SCALE as int), SCALE as int,
                2 * (SCALE as int));
            lemma_scale3_bound_by(neg3_s(f.m()), vd.m().z, SCALE as int, SCALE as int,
                SCALE as int);
        }
        let world: Vec3 = s.scale(vd.x).add(&u.scale(vd.y)).add(&f.neg().scale(vd.z));
        Vec3::unit_or_zero(&world)
    }
}

/// The fixed-point ratio `a / (b - 1)` used by the fixed viewport frame.
fn ratio(a: u32, b: u32) -> (r: i128)
    requires
        b >= 2,
    ensures
        r == trunc_div((a as int) * (SCALE as int), (b as int) - 1),
        0 <= r,
        r <= 0x1_0000_0000_0000i128,
{
    proof {
        assert(0 <= (a as int) * (SCALE as int) <= 0x1_0000_0000_0000int) by (nonlinear_arith)
            requires
                0 <= a <= 0xffff_ffffu32,
        ;
    }
    let q: u128 = (a as u128 * 65536) / ((b - 1) as u128);
    proof {
        assert(q <= (a as int) * 65536) by (nonlinear_arith)
            requires
                q as int == ((a as int) * 65536) / ((b as int) - 1),
                b >= 2,
                a >= 0,
        ;
        lemma_div_is_ordered(0, (a as int) * (SCALE as int), (b as int) - 1);
    }
    q as i128
}

/// The normalized device coordinate of index `i` out of `n`.
fn ndc(i: u32, n: u32) -> (r: i128)
    requires
        0 < n,
        i < n,
    ensures
        r == ndc_s(i as int, n as int),
        mag(r as int) <= ONE as int,
{
    proof {
        assert((i as int) * (SCALE as int) < (n as int) * (SCALE as int)) by (nonlinear_arith)
            requires
                0 <= i < n,
        ;
        assert((i as int) * (SCALE as int) >= 0) by (nonlinear_arith)
            requires
                i >= 0,
        ;
        lemma_div_is_ordered(
            (i as int) * (SCALE as int),
            (n as int) * (SCALE as int),
            n as int,
        );
        vstd::arithmetic::div_mod::lemma_div_multiples_vanish(SCALE as int, n as int);
        lemma_div_is_ordered(0, (i as int) * (SCALE as int), n as int);
    }
    let t: i128 = ((i as u128 * 65536) / (n as u128)) as i128;
    2 * t - ONE
}

} // verus!
