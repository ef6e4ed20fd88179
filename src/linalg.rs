//! Q16.16 vectors and 4x4 homogeneous matrices.
use vstd::prelude::*;
use crate::fixed::{ONE, clamp_i32, floor_div, saturate_i32, lemma_mul_bound};

verus! {

#[derive(Clone, Copy, Debug, PartialEq, Eq, Structural)]
pub struct Vec2 {
    pub x: i32,
    pub y: i32,
}

#[derive(Clone, Copy, Debug, PartialEq, Eq, Structural)]
pub struct Vec3 {
    pub x: i32,
    pub y: i32,
    pub z: i32,
}

#[derive(Clone, Copy, Debug, PartialEq, Eq, Structural)]
pub struct Vec4 {
    pub x: i32,
    pub y: i32,
    pub z: i32,
    pub w: i32,
}

/// A 4x4 matrix, stored by rows.
#[derive(Clone, Copy, Debug, PartialEq, Eq, Structural)]
pub struct Mat4 {
    pub row0: Vec4,
    pub row1: Vec4,
    pub row2: Vec4,
    pub row3: Vec4,
}

pub open spec fn dot4(a: Vec4, b: Vec4) -> int {
    a.x * b.x + a.y * b.y + a.z * b.z + a.w * b.w
}

/// The Q16.16 dot product: the raw sum scaled down by one unit, rounded down
/// and saturated.
pub open spec fn dot4_q16(a: Vec4, b: Vec4) -> i32 {
    clamp_i32(dot4(a, b) / (ONE as int)) as i32
}

/// The product of a matrix and a column vector, in Q16.16.
pub open spec fn mat_vec(m: Mat4, v: Vec4) -> Vec4 {
    Vec4 {
        x: dot4_q16(m.row0, v),
        y: dot4_q16(m.row1, v),
        z: dot4_q16(m.row2, v),
        w: dot4_q16(m.row3, v),
    }
}

impl Vec2 {
    pub fn new(x: i32, y: i32) -> (v: Vec2)
        ensures
            v == (Vec2 { x, y }),
    {
        Vec2 { x, y }
    }
}

impl Vec3 {
    pub fn new(x: i32, y: i32, z: i32) -> (v: Vec3)
        ensures
            v == (Vec3 { x, y, z }),
    {
        Vec3 { x, y, z }
    }
}

impl Vec4 {
    pub fn new(x: i32, y: i32, z: i32, w: i32) -> (v: Vec4)
        ensures
            v == (Vec4 { x, y, z, w }),
    {
        Vec4 { x, y, z, w }
    }

    /// The Q16.16 dot product with `o`.
    pub fn dot(&self, o: &Vec4) -> (r: i32)
        ensures
            r == dot4_q16(*self, *o),
    {
        proof {
            let b = 0x8000_0000int;
            lemma_mul_bound(self.x as int, o.x as int, b, b);
            lemma_mul_bound(self.y as int, o.y as int, b, b);
            lemma_mul_bound(self.z as int, o.z as int, b, b);
            lemma_mul_bound(self.w as int, o.w as int, b, b);
        }
        let s = (self.x as i128) * (o.x as i128) + (self.y as i128) * (o.y as i128) + (self.z as i128)
            * (o.z as i128) + (self.w as i128) * (o.w as i128);
        saturate_i32(floor_div(s, ONE as i128))
    }
}

impl Mat4 {
    /// A matrix from its sixteen entries, row by row.
    pub fn new(
        m00: i32,
        m01: i32,
        m02: i32,
        m03: i32,
        m10: i32,
        m11: i32,
        m12: i32,
        m13: i32,
        m20: i32,
        m21: i32,
        m22: i32,
        m23: i32,
        m30: i32,
        m31: i32,
        m32: i32,
        m33: i32,
    ) -> (m: Mat4)
        ensures
            m.row0 == (Vec4 { x: m00, y: m01, z: m02, w: m03 }),
            m.row1 == (Vec4 { x: m10, y: m11, z: m12, w: m13 }),
            m.row2 == (Vec4 { x: m20, y: m21, z: m22, w: m23 }),
            m.row3 == (Vec4 { x: m30, y: m31, z: m32, w: m33 }),
    {
        Mat4 {
            row0: Vec4 { x: m00, y: m01, z: m02, w: m03 },
            row1: Vec4 { x: m10, y: m11, z: m12, w: m13 },
            row2: Vec4 { x: m20, y: m21, z: m22, w: m23 },
            row3: Vec4 { x: m30, y: m31, z: m32, w: m33 },
        }
    }

    /// The identity matrix.
    pub fn identity() -> (m: Mat4)
        ensures
            m.row0 == (Vec4 { x: ONE, y: 0, z: 0, w: 0 }),
            m.row1 == (Vec4 { x: 0, y: ONE, z: 0, w: 0 }),
            m.row2 == (Vec4 { x: 0, y: 0, z: ONE, w: 0 }),
            m.row3 == (Vec4 { x: 0, y: 0, z: 0, w: ONE }),
    {
        Mat4::new(ONE, 0, 0, 0, 0, ONE, 0, 0, 0, 0, ONE, 0, 0, 0, 0, ONE)
    }

    /// The product with a column vector.
    pub fn mul_vec(&self, v: &Vec4) -> (r: Vec4)
        ensures
            r == mat_vec(*self, *v),
    {
        Vec4 { x: self.row0.dot(v), y: self.row1.dot(v), z: self.row2.dot(v), w: self.row3.dot(v) }
    }
}

} // verus!
