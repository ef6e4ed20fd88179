//! Fragments: one candidate pixel of one triangle, with interpolated attributes.
use vstd::prelude::*;
use crate::linalg::Vec3;

verus! {

/// A covered pixel of a triangle. `depth` is the interpolated screen-space
/// depth, `vertex_position` the interpolated model-space position (a shading
/// coordinate that does not move with the camera), `normal` the interpolated
/// transformed normal and `intensity` the Q16.16 lighting factor.
#[derive(Clone, Copy, Debug, PartialEq, Eq, Structural)]
pub struct Fragment {
    pub x: usize,
    pub y: usize,
    pub depth: i32,
    pub vertex_position: Vec3,
    pub normal: Vec3,
    pub intensity: i32,
}

} // verus!
