//! A software rasterizer for stylized celestial bodies.
//!
//! The pipeline transforms model-space vertices into screen space, rasterizes
//! triangles with a depth test, shades each covered pixel with a procedural
//! noise-driven shader, and composites an emission buffer into the color
//! buffer. All scalar work is done in 16.16 fixed-point arithmetic so that
//! every stage carries an exact contract.

pub mod fixed;
pub mod color;
pub mod framebuffer;
pub mod noise;
pub mod trig;
pub mod geom;
pub mod raster;
pub mod shaders;
pub mod pipeline;
