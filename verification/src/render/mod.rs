//! Rendering kinds.

pub mod camera;

pub use camera::Projection;
