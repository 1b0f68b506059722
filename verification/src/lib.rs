//! A progressively refining path-tracer core.
//!
//! The library turns a camera pose and a small analytic scene (spheres with
//! materials) into a packed pixel buffer, accumulating samples over
//! successive frames.  All linear-color and geometric quantities are carried
//! in signed 16.16 fixed-point arithmetic, which keeps every computation
//! exact, deterministic and verifiable; trigonometry and display belong to
//! the callers.

pub mod camera;
pub mod color;
pub mod fx;
pub mod rt;
pub mod scene;
pub mod random;
pub mod renderer;
pub mod vec3;
