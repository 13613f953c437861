//! A progressive path tracer over fixed-point arithmetic.
pub mod scalar;
pub mod trig;
pub mod norm;
pub mod random;
pub mod primitives;
pub mod geometry;
pub mod material;
pub mod object;
pub mod camera;
pub mod scene;
pub mod renderer;
