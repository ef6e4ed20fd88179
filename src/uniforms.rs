//! Per-frame values shared by every stage, read-only while a frame renders.
use vstd::prelude::*;
use crate::linalg::Mat4;

verus! {

/// The matrices of one frame (all Q16.16) and the frame counter.
#[derive(Clone, Copy, Debug, PartialEq, Eq, Structural)]
pub struct Uniforms {
    pub model_matrix: Mat4,
    pub view_matrix: Mat4,
    pub projection_matrix: Mat4,
    pub viewport_matrix: Mat4,
    pub time: u32,
}

} // verus!
