//! The scene: a flat relational store of spheres and materials.
//!
//! Spheres refer to materials by index, so many spheres can share one
//! material.  A scene is read-only for the duration of a render call; the
//! well-formedness predicates below are what the integrator requires of it:
//! every material reference in range, every radius positive, and every
//! coordinate within the fixed world bounds that keep the arithmetic of the
//! integrator inside its headroom.

use vstd::prelude::*;
use crate::fx::{mag, ONE};
use crate::vec3::{bounded3, scale3_s, Vec3, V3i};

verus! {

/// Magnitude bound on world coordinates, radii and material channels.
pub const COORD_MAX: i128 = 0x200_0000;

/// A surface description.  Channels are linear fixed-point values; the
/// metallic term is carried but unused by the shading model.
#[derive(Clone, Copy, Debug)]
pub struct Material {
    pub albedo: Vec3,
    pub roughness: i128,
    pub metallic: i128,
    pub emission_color: Vec3,
    pub emission_power: i128,
}

/// A sphere: a world-space position, a radius and the index of its material.
#[derive(Clone, Copy, Debug)]
pub struct Sphere {
    pub position: Vec3,
    pub radius: i128,
    pub material_index: usize,
}

/// The scene: spheres and the materials they reference by index.
pub struct Scene {
    pub spheres: Vec<Sphere>,
    pub materials: Vec<Material>,
}

/// The material's channels and parameters are within the world bounds, and
/// roughness and metallic lie in the unit interval.
pub open spec fn material_wf(m: Material) -> bool {
    &&& bounded3(m.albedo.m(), COORD_MAX as int)
    &&& 0 <= m.roughness <= ONE
    &&& 0 <= m.metallic <= ONE
    &&& bounded3(m.emission_color.m(), COORD_MAX as int)
    &&& mag(m.emission_power as int) <= COORD_MAX as int
}

/// The sphere sits within the world bounds and has a positive radius.
pub open spec fn sphere_wf(s: Sphere) -> bool {
    &&& bounded3(s.position.m(), COORD_MAX as int)
    &&& 0 < s.radius <= COORD_MAX
}

/// A well-formed scene: every sphere within bounds with its material index
/// in range, and every material within bounds.
pub open spec fn scene_wf(s: Scene) -> bool {
    &&& forall|i: int|
        0 <= i < s.spheres@.len() ==> sphere_wf(#[trigger] s.spheres@[i])
            && s.spheres@[i].material_index < s.materials@.len()
    &&& forall|i: int| 0 <= i < s.materials@.len() ==> material_wf(#[trigger] s.materials@[i])
}

/// The conventional color range: every material's albedo channels are
/// non-negative.
pub open spec fn materials_nonneg(mats: Seq<Material>) -> bool {
    forall|j: int|
        0 <= j < mats.len() ==> {
            let a = (#[trigger] mats[j]).albedo.m();
            0 <= a.x && 0 <= a.y && 0 <= a.z
        }
}

impl Sphere {
    /// A sphere with the default material.
    pub fn new(position: Vec3, radius: i128) -> (r: Sphere)
        ensures
            r.position == position,
            r.radius == radius,
            r.material_index == 0,
    {
        Sphere { position, radius, material_index: 0 }
    }
}

impl Material {
    /// The light the material emits: its emission color scaled by the
    /// emission power.
    pub fn get_emission(&self) -> (r: Vec3)
        requires
            material_wf(*self),
        ensures
            r.m() == scale3_s(self.emission_color.m(), self.emission_power as int),
    {
        self.emission_color.scale(self.emission_power)
    }
}

impl Default for Material {
    /// A matte white material that emits nothing.
    fn default() -> (r: Material)
        ensures
            r.albedo.m() == (V3i { x: ONE as int, y: ONE as int, z: ONE as int }),
            r.roughness == ONE,
            r.metallic == 0,
            r.emission_color.m() == (V3i { x: 0, y: 0, z: 0 }),
            r.emission_power == 0,
            material_wf(r),
    {
        Material {
            albedo: Vec3 { x: ONE, y: ONE, z: ONE },
            roughness: ONE,
            metallic: 0,
            emission_color: Vec3 { x: 0, y: 0, z: 0 },
            emission_power: 0,
        }
    }
}

impl Default for Sphere {
    /// A half-unit sphere at the origin with the first material.
    fn default() -> (r: Sphere)
        ensures
            r.position.m() == (V3i { x: 0, y: 0, z: 0 }),
            r.radius == 32768,
            r.material_index == 0,
            sphere_wf(r),
    {
        Sphere {
            position: Vec3 { x: 0, y: 0, z: 0 },
            radius: 32768,
            material_index: 0,
        }
    }
}

} // verus!
