//! Core logic of a small world simulation: entities living on the surface of a
//! rotating sphere, an orbit/zoom camera, and pointer-click targeting of points
//! on the sphere.
//!
//! All geometry is carried out in deterministic fixed-point arithmetic (scaled
//! 64-bit integers, `fx` module), so every published value is an exact function
//! of the tick inputs.  Rendering, asset loading and window handling are outside
//! collaborators and are not part of this crate's logic.

pub mod camera;
pub mod creature;
pub mod fx;
pub mod planetoid;
pub mod quat;
pub mod raycast;
pub mod transform;
pub mod trig;
pub mod vec3;
pub mod world;
