//! RGB colours with 8-bit channels, and the channel arithmetic used by shading.
use vstd::prelude::*;
use crate::fixed::{ONE, floor_div, lemma_mul_bound};

verus! {

/// An RGB colour with one byte per channel.
#[derive(Clone, Copy, Debug, PartialEq, Eq, Structural)]
pub struct Color {
    pub r: u8,
    pub g: u8,
    pub b: u8,
}

/// Saturates a mathematical integer into the range of a colour channel.
pub open spec fn clamp_channel(v: int) -> u8 {
    if v < 0 {
        0
    } else if v > 255 {
        255
    } else {
        v as u8
    }
}

/// A channel scaled by a Q16.16 factor, rounded down and saturated.
pub open spec fn scale_channel(c: u8, k: int) -> u8 {
    clamp_channel((c * k) / (ONE as int))
}

/// Clamps a Q16.16 blend factor into `[0, 1]`.
pub open spec fn unit_factor(t: int) -> int {
    if t < 0 {
        0
    } else if t > ONE {
        ONE as int
    } else {
        t
    }
}

/// A channel moved from `a` toward `b` by the factor `t` (Q16.16, clamped to `[0, 1]`).
pub open spec fn lerp_channel(a: u8, b: u8, t: int) -> u8 {
    clamp_channel(a + ((b - a) * unit_factor(t)) / (ONE as int))
}

/// The packed `0xRRGGBB` form of a colour.
pub open spec fn hex_of(c: Color) -> u32 {
    (c.r * 65536 + c.g * 256 + c.b) as u32
}

/// Every channel scaled by the Q16.16 factor `k`.
pub open spec fn scaled(c: Color, k: int) -> Color {
    Color { r: scale_channel(c.r, k), g: scale_channel(c.g, k), b: scale_channel(c.b, k) }
}

/// The channel-wise saturated sum.
pub open spec fn added(a: Color, b: Color) -> Color {
    Color { r: clamp_channel(a.r + b.r), g: clamp_channel(a.g + b.g), b: clamp_channel(a.b + b.b) }
}

/// The channel-wise interpolation from `a` toward `b` by `t`.
pub open spec fn lerped(a: Color, b: Color, t: int) -> Color {
    Color { r: lerp_channel(a.r, b.r, t), g: lerp_channel(a.g, b.g, t), b: lerp_channel(a.b, b.b, t) }
}

fn scale_u8(c: u8, k: i32) -> (r: u8)
    ensures
        r == scale_channel(c, k as int),
{
    proof {
        lemma_mul_bound(c as int, k as int, 255, 0x8000_0000);
    }
    let q = floor_div((c as i128) * (k as i128), ONE as i128);
    if q < 0 {
        0
    } else if q > 255 {
        255
    } else {
        q as u8
    }
}

fn lerp_u8(a: u8, b: u8, t: i32) -> (r: u8)
    requires
        0 <= t <= ONE,
    ensures
        r == lerp_channel(a, b, t as int),
{
    proof {
        lemma_mul_bound(b - a, t as int, 255, ONE as int);
    }
    let q = floor_div((b as i128 - a as i128) * (t as i128), ONE as i128);
    let v = a as i128 + q;
    if v < 0 {
        0
    } else if v > 255 {
        255
    } else {
        v as u8
    }
}

impl Color {
    pub fn new(r: u8, g: u8, b: u8) -> (c: Color)
        ensures
            c == (Color { r, g, b }),
    {
        Color { r, g, b }
    }

    pub fn black() -> (c: Color)
        ensures
            c == (Color { r: 0, g: 0, b: 0 }),
    {
        Color { r: 0, g: 0, b: 0 }
    }

    /// The colour packed as `0xRRGGBB`.
    pub fn to_hex(&self) -> (h: u32)
        ensures
            h == hex_of(*self),
            h as int == self.r * 65536 + self.g * 256 + self.b,
    {
        (self.r as u32) * 65536 + (self.g as u32) * 256 + (self.b as u32)
    }

    /// Each channel multiplied by the Q16.16 factor `k`, rounded down and saturated.
    pub fn mul_intensity(&self, k: i32) -> (c: Color)
        ensures
            c == scaled(*self, k as int),
    {
        Color { r: scale_u8(self.r, k), g: scale_u8(self.g, k), b: scale_u8(self.b, k) }
    }

    /// Channel-wise sum, saturated at 255.
    pub fn add(&self, o: &Color) -> (c: Color)
        ensures
            c == added(*self, *o),
    {
        Color {
            r: self.r.saturating_add(o.r),
            g: self.g.saturating_add(o.g),
            b: self.b.saturating_add(o.b),
        }
    }

    /// Linear interpolation toward `o` by the Q16.16 factor `t`, clamped to `[0, 1]`.
    pub fn lerp(&self, o: &Color, t: i32) -> (c: Color)
        ensures
            c == lerped(*self, *o, t as int),
    {
        let u: i32 = if t < 0 {
            0
        } else if t > ONE {
            ONE
        } else {
            t
        };
        Color { r: lerp_u8(self.r, o.r, u), g: lerp_u8(self.g, o.g, u), b: lerp_u8(self.b, o.b, u) }
    }

    /// The "normal" blend mode: the blended layer replaces the base.
    pub fn blend_normal(&self, blend: &Color) -> (c: Color)
        ensures
            c == *blend,
    {
        *blend
    }
}

} // verus!
