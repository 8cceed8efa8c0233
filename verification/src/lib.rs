//! The exact part of a small path tracer: byte colours, the output texture
//! with its bounds-checked pixel writes, the drivers that fill it on one
//! thread or on many, and the bookkeeping of a traced path.
//!
//! Geometry and shading are floating-point work: callers hand them in as
//! functions, and get back what is left to weigh and to average.

pub mod colors;
pub mod raytracer;
pub mod texture;
