//! Verified control logic of a Monte-Carlo path tracer.
//!
//! The numeric work of the tracer (vectors, intersections, scattering and
//! the camera) is done in floating point by the application around this
//! library; what is decided here is carried by integers and enums.
pub mod frame;
pub mod scene;
pub mod sphere;
pub mod trace;
