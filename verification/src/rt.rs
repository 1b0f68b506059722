//! Ray-tracing primitives: rays and the packed-pixel color codec.

pub mod color;
pub mod ray;
