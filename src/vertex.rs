//! Vertex records: model-space attributes plus the screen-space results of the
//! transform stage.
use vstd::prelude::*;
use crate::color::Color;
use crate::linalg::{Vec2, Vec3};

verus! {

/// A mesh vertex. `position` and `normal` are in model space; the transform
/// stage fills `transformed_position` (screen space, Q16.16 pixels, with the
/// NDC depth in `z`) and `transformed_normal`.
#[derive(Clone, Copy, Debug, PartialEq, Eq, Structural)]
pub struct Vertex {
    pub position: Vec3,
    pub normal: Vec3,
    pub tex_coords: Vec2,
    pub color: Color,
    pub transformed_position: Vec3,
    pub transformed_normal: Vec3,
}

impl Vertex {
    /// A vertex whose transformed attributes start out equal to the model-space ones.
    pub fn new(position: Vec3, normal: Vec3, tex_coords: Vec2) -> (v: Vertex)
        ensures
            v.position == position,
            v.normal == normal,
            v.tex_coords == tex_coords,
            v.color == (Color { r: 0, g: 0, b: 0 }),
            v.transformed_position == position,
            v.transformed_normal == normal,
    {
        Vertex {
            position,
            normal,
            tex_coords,
            color: Color::black(),
            transformed_position: position,
            transformed_normal: normal,
        }
    }
}

} // verus!
