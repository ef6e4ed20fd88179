//! A software rasterizer in Q16.16 fixed point: vertex transform, primitive
//! assembly, triangle rasterization with a consistent fill rule, depth-tested
//! framebuffer writes and procedural shading policies.
pub mod fixed;
pub mod color;
pub mod framebuffer;
pub mod linalg;
pub mod vertex;
pub mod fragment;
pub mod uniforms;
pub mod transform;
pub mod raster;
pub mod pipeline;
pub mod shaders;
