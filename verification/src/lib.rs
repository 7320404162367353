//! The integer core of a small path tracer.
//!
//! - [`bitmap`]: the framebuffer that a frame is rendered into.
//! - [`pixel`]: the packing of colours into display pixels.
//! - [`scene`]: which crossing of a primitive counts as a hit, and which
//!   primitive of a scene is hit first.
//! - [`path`]: how far a light path may bounce, and how it ends.
//! - [`clamp`]: clamping a value into a range.
//!
//! The arithmetic on real numbers (vectors, intersections, scattering,
//! sampling) is not part of this crate: it hands this crate plain integers and
//! takes plain integers back.

pub mod bitmap;
pub mod clamp;
pub mod path;
pub mod pixel;
pub mod scene;
