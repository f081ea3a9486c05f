//! A screen-space outline post-process effect.
//!
//! The effect reads per-pixel depth and normals produced by earlier passes, looks for
//! discontinuities between neighbouring pixels, and draws outline pixels over the color image.
//!
//! All quantities are fixed-point numbers, a `u32` holding millionths of a unit, and normals
//! are `i16` direction vectors, so that every rule of the effect is exact integer arithmetic.

/// Settings record carried by each camera that opts into the effect.
pub mod components;
/// The per-pixel edge detection and compositing rules.
pub mod kernel;
/// The outline pass over a whole frame.
pub mod frame;
/// Keeping the cached near plane in step with the camera.
pub mod camera;
/// Where the outline pass stands in the render sequence.
pub mod nodes;
