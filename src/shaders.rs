//! Shading policies: a noise sample keyed by the fragment's model-space
//! position picks colours from a palette, which the fragment's lighting
//! intensity then scales. Noise values are Q16.16 numbers in `[-1, 1]`; the
//! noise generator itself is supplied by the caller as a sampling function.
use vstd::prelude::*;
use crate::color::{Color, scaled, added, lerped};
use crate::fixed::{ONE, HALF};
use crate::fragment::Fragment;
use crate::uniforms::Uniforms;

verus! {

/// How a two-colour surface places its noise.
#[derive(Clone, Copy, Debug, PartialEq, Eq, Structural)]
pub enum Pattern {
    /// Noise over the model-space `(x, y)` plane; the spot colour shows where
    /// the sample is below the threshold.
    Spots,
    /// Noise along the model-space `y` axis only, giving horizontal bands; the
    /// spot colour shows where the sample is above the threshold.
    Bands,
}

/// A two-colour procedural surface: its noise frequency (`zoom`), the offset
/// of its noise coordinates (Q16.16), a threshold (Q16.16) and two colours.
#[derive(Clone, Copy, Debug, PartialEq, Eq, Structural)]
pub struct SpotSurface {
    pub pattern: Pattern,
    pub zoom: u16,
    pub offset_x: i32,
    pub offset_y: i32,
    pub threshold: i32,
    pub spot: Color,
    pub base: Color,
}

impl SpotSurface {
    /// The noise coordinates (Q16.16) sampled for a fragment.
    pub open spec fn noise_point_spec(self, f: Fragment) -> (int, int) {
        match self.pattern {
            Pattern::Spots => (
                (f.vertex_position.x + self.offset_x) * self.zoom,
                (f.vertex_position.y + self.offset_y) * self.zoom,
            ),
            Pattern::Bands => ((f.vertex_position.y + self.offset_y) * self.zoom, self.offset_x
                * self.zoom),
        }
    }

    /// Whether a noise sample selects the spot colour.
    pub open spec fn picks_spot(self, n: int) -> bool {
        match self.pattern {
            Pattern::Spots => n < self.threshold,
            Pattern::Bands => n > self.threshold,
        }
    }

    /// The shaded colour of a fragment for the noise sample `n`.
    pub open spec fn color_for(self, f: Fragment, n: int) -> Color {
        scaled(
            if self.picks_spot(n) {
                self.spot
            } else {
                self.base
            },
            f.intensity as int,
        )
    }

    /// The noise coordinates sampled for `fragment`.
    pub fn noise_point(&self, fragment: &Fragment) -> (p: (i64, i64))
        ensures
            (p.0 as int, p.1 as int) == self.noise_point_spec(*fragment),
    {
        let x = fragment.vertex_position.x as i64;
        let y = fragment.vertex_position.y as i64;
        let zoom = self.zoom as i64;
        proof {
            crate::fixed::lemma_mul_bound(x + self.offset_x, zoom as int, 0x1_0000_0000, 0x10000);
            crate::fixed::lemma_mul_bound(y + self.offset_y, zoom as int, 0x1_0000_0000, 0x10000);
            crate::fixed::lemma_mul_bound(self.offset_x as int, zoom as int, 0x1_0000_0000, 0x10000);
        }
        match self.pattern {
            Pattern::Spots => ((x + self.offset_x as i64) * zoom, (y + self.offset_y as i64) * zoom),
            Pattern::Bands => ((y + self.offset_y as i64) * zoom, (self.offset_x as i64) * zoom),
        }
    }

    /// The colour of `fragment` given the noise sample taken at its noise point.
    /// The result depends on the fragment and the sample alone.
    pub fn shade(&self, fragment: &Fragment, noise: i32) -> (c: Color)
        ensures
            c == self.color_for(*fragment, noise as int),
    {
        let picks = match self.pattern {
            Pattern::Spots => noise < self.threshold,
            Pattern::Bands => noise > self.threshold,
        };
        let chosen = if picks {
            self.spot
        } else {
            self.base
        };
        chosen.mul_intensity(fragment.intensity)
    }

    /// Samples `noise_2d` at the fragment's noise point and shades with the result.
    pub fn shade_with<N: Fn(i64, i64) -> i32>(&self, fragment: &Fragment, noise_2d: N) -> (c: Color)
        requires
            forall|x: i64, y: i64| noise_2d.requires((x, y)),
        ensures
            exists|x: i64, y: i64, n: i32|
                (x as int, y as int) == self.noise_point_spec(*fragment) && noise_2d.ensures(
                    (x, y),
                    n,
                ) && c == self.color_for(*fragment, n as int),
    {
        let (x, y) = self.noise_point(fragment);
        let n = noise_2d(x, y);
        self.shade(fragment, n)
    }
}

/// A surface of spots on the model's `(x, y)` plane (noise frequency 100,
/// threshold 0.5).
pub open spec fn spots_of(spot: Color, base: Color) -> SpotSurface {
    SpotSurface { pattern: Pattern::Spots, zoom: 100, offset_x: 0, offset_y: 0, threshold: HALF, spot, base }
}

/// A surface of horizontal bands (noise frequency 50, threshold 0).
pub open spec fn bands_of(spot: Color, base: Color) -> SpotSurface {
    SpotSurface { pattern: Pattern::Bands, zoom: 50, offset_x: 0, offset_y: 0, threshold: 0, spot, base }
}

pub fn spots(spot: Color, base: Color) -> (s: SpotSurface)
    ensures
        s == spots_of(spot, base),
{
    SpotSurface { pattern: Pattern::Spots, zoom: 100, offset_x: 0, offset_y: 0, threshold: HALF, spot, base }
}

pub fn bands(spot: Color, base: Color) -> (s: SpotSurface)
    ensures
        s == bands_of(spot, base),
{
    SpotSurface { pattern: Pattern::Bands, zoom: 50, offset_x: 0, offset_y: 0, threshold: 0, spot, base }
}

/// `c` is what `s` gives for the fragment with some sample that `noise_2d`
/// may return at the fragment's noise point.
pub open spec fn shaded_by<N: Fn(i64, i64) -> i32>(s: SpotSurface, f: Fragment, noise_2d: N, c: Color) -> bool {
    exists|x: i64, y: i64, n: i32|
        (x as int, y as int) == s.noise_point_spec(f) && noise_2d.ensures((x, y), n) && c
            == s.color_for(f, n as int)
}

/// Grey, cratered: spots of one grey.
pub fn mercurio<N: Fn(i64, i64) -> i32>(fragment: &Fragment, uniforms: &Uniforms, noise_2d: N) -> (c: Color)
    requires
        forall|x: i64, y: i64| noise_2d.requires((x, y)),
    ensures
        shaded_by(
            spots_of(Color { r: 223, g: 223, b: 223 }, Color { r: 223, g: 223, b: 223 }),
            *fragment,
            noise_2d,
            c,
        ),
{
    spots(Color::new(223, 223, 223), Color::new(223, 223, 223)).shade_with(fragment, noise_2d)
}

/// Pale blue throughout.
pub fn neptuno<N: Fn(i64, i64) -> i32>(fragment: &Fragment, uniforms: &Uniforms, noise_2d: N) -> (c: Color)
    requires
        forall|x: i64, y: i64| noise_2d.requires((x, y)),
    ensures
        shaded_by(
            spots_of(Color { r: 152, g: 221, b: 255 }, Color { r: 152, g: 221, b: 255 }),
            *fragment,
            noise_2d,
            c,
        ),
{
    spots(Color::new(152, 221, 255), Color::new(152, 221, 255)).shade_with(fragment, noise_2d)
}

/// Dark grey spots on light grey.
pub fn luna<N: Fn(i64, i64) -> i32>(fragment: &Fragment, uniforms: &Uniforms, noise_2d: N) -> (c: Color)
    requires
        forall|x: i64, y: i64| noise_2d.requires((x, y)),
    ensures
        shaded_by(
            spots_of(Color { r: 135, g: 135, b: 135 }, Color { r: 191, g: 191, b: 191 }),
            *fragment,
            noise_2d,
            c,
        ),
{
    spots(Color::new(135, 135, 135), Color::new(191, 191, 191)).shade_with(fragment, noise_2d)
}

/// Yellow bands on orange.
pub fn saturno<N: Fn(i64, i64) -> i32>(fragment: &Fragment, uniforms: &Uniforms, noise_2d: N) -> (c: Color)
    requires
        forall|x: i64, y: i64| noise_2d.requires((x, y)),
    ensures
        shaded_by(
            bands_of(Color { r: 255, g: 233, b: 11 }, Color { r: 224, g: 142, b: 104 }),
            *fragment,
            noise_2d,
            c,
        ),
{
    bands(Color::new(255, 233, 11), Color::new(224, 142, 104)).shade_with(fragment, noise_2d)
}

/// Brown bands on red.
pub fn marte<N: Fn(i64, i64) -> i32>(fragment: &Fragment, uniforms: &Uniforms, noise_2d: N) -> (c: Color)
    requires
        forall|x: i64, y: i64| noise_2d.requires((x, y)),
    ensures
        shaded_by(
            bands_of(Color { r: 143, g: 78, b: 54 }, Color { r: 204, g: 22, b: 0 }),
            *fragment,
            noise_2d,
            c,
        ),
{
    bands(Color::new(143, 78, 54), Color::new(204, 22, 0)).shade_with(fragment, noise_2d)
}

/// Light cyan bands on cyan.
pub fn urano1<N: Fn(i64, i64) -> i32>(fragment: &Fragment, uniforms: &Uniforms, noise_2d: N) -> (c: Color)
    requires
        forall|x: i64, y: i64| noise_2d.requires((x, y)),
    ensures
        shaded_by(
            bands_of(Color { r: 0, g: 255, b: 212 }, Color { r: 0, g: 220, b: 255 }),
            *fragment,
            noise_2d,
            c,
        ),
{
    bands(Color::new(0, 255, 212), Color::new(0, 220, 255)).shade_with(fragment, noise_2d)
}

/// Lime green throughout.
#[allow(non_snake_case)]
pub fn planetaE1<N: Fn(i64, i64) -> i32>(fragment: &Fragment, uniforms: &Uniforms, noise_2d: N) -> (c: Color)
    requires
        forall|x: i64, y: i64| noise_2d.requires((x, y)),
    ensures
        shaded_by(
            bands_of(Color { r: 131, g: 255, b: 0 }, Color { r: 131, g: 255, b: 0 }),
            *fragment,
            noise_2d,
            c,
        ),
{
    bands(Color::new(131, 255, 0), Color::new(131, 255, 0)).shade_with(fragment, noise_2d)
}

/// Magenta throughout.
#[allow(non_snake_case)]
pub fn planetaE2<N: Fn(i64, i64) -> i32>(fragment: &Fragment, uniforms: &Uniforms, noise_2d: N) -> (c: Color)
    requires
        forall|x: i64, y: i64| noise_2d.requires((x, y)),
    ensures
        shaded_by(
            bands_of(Color { r: 255, g: 0, b: 243 }, Color { r: 255, g: 0, b: 243 }),
            *fragment,
            noise_2d,
            c,
        ),
{
    bands(Color::new(255, 0, 243), Color::new(255, 0, 243)).shade_with(fragment, noise_2d)
}

/// Violet throughout.
#[allow(non_snake_case)]
pub fn planetaE3<N: Fn(i64, i64) -> i32>(fragment: &Fragment, uniforms: &Uniforms, noise_2d: N) -> (c: Color)
    requires
        forall|x: i64, y: i64| noise_2d.requires((x, y)),
    ensures
        shaded_by(
            bands_of(Color { r: 166, g: 0, b: 255 }, Color { r: 166, g: 0, b: 255 }),
            *fragment,
            noise_2d,
            c,
        ),
{
    bands(Color::new(166, 0, 255), Color::new(166, 0, 255)).shade_with(fragment, noise_2d)
}

/// Magenta throughout.
pub fn venus<N: Fn(i64, i64) -> i32>(fragment: &Fragment, uniforms: &Uniforms, noise_2d: N) -> (c: Color)
    requires
        forall|x: i64, y: i64| noise_2d.requires((x, y)),
    ensures
        shaded_by(
            bands_of(Color { r: 255, g: 0, b: 243 }, Color { r: 255, g: 0, b: 243 }),
            *fragment,
            noise_2d,
            c,
        ),
{
    bands(Color::new(255, 0, 243), Color::new(255, 0, 243)).shade_with(fragment, noise_2d)
}

/// Magenta throughout.
pub fn jupiter<N: Fn(i64, i64) -> i32>(fragment: &Fragment, uniforms: &Uniforms, noise_2d: N) -> (c: Color)
    requires
        forall|x: i64, y: i64| noise_2d.requires((x, y)),
    ensures
        shaded_by(
            bands_of(Color { r: 255, g: 0, b: 243 }, Color { r: 255, g: 0, b: 243 }),
            *fragment,
            noise_2d,
            c,
        ),
{
    bands(Color::new(255, 0, 243), Color::new(255, 0, 243)).shade_with(fragment, noise_2d)
}

/// The land colour of the earth surface for the magnitude of its cell noise:
/// bands below 0.15, 0.7 and 0.75, and above.
pub open spec fn earth_land(cell: int) -> Color {
    if 100 * cell < 15 * ONE {
        Color { r: 85, g: 107, b: 47 }
    } else if 10 * cell < 7 * ONE {
        Color { r: 2, g: 100, b: 177 }
    } else if 4 * cell < 3 * ONE {
        Color { r: 85, g: 107, b: 47 }
    } else {
        Color { r: 133, g: 98, b: 57 }
    }
}

/// The earth surface for a cell-noise and a cloud-noise sample: the land colour
/// by thresholds on the cell noise's magnitude, half covered by white cloud
/// where the cloud noise exceeds 0.5, scaled by the fragment's intensity.
pub open spec fn earth_color(f: Fragment, cell_noise: int, cloud_noise: int) -> Color {
    let cell = if cell_noise < 0 {
        -cell_noise
    } else {
        cell_noise
    };
    let land = earth_land(cell);
    let surface = if cloud_noise > HALF {
        added(scaled(Color { r: 255, g: 255, b: 255 }, HALF as int), scaled(land, HALF as int))
    } else {
        land
    };
    scaled(surface, f.intensity as int)
}

/// Where the earth surface samples its cell noise.
pub open spec fn earth_cell_point(f: Fragment) -> (int, int) {
    (f.vertex_position.x * 30 + 50 * ONE, f.vertex_position.y * 30 + 50 * ONE)
}

/// Where the earth surface samples its cloud noise; the clouds drift with time.
pub open spec fn earth_cloud_point(f: Fragment, time: int) -> (int, int) {
    (f.vertex_position.x * 100 + 100 * ONE + time * HALF, f.vertex_position.y * 100 + 100 * ONE)
}

/// `c` is the earth surface's colour for some samples that `noise_2d` may
/// return at the fragment's two noise points.
pub open spec fn earth_shaded_by<N: Fn(i64, i64) -> i32>(f: Fragment, time: int, noise_2d: N, c: Color) -> bool {
    exists|x1: i64, y1: i64, n1: i32, x2: i64, y2: i64, n2: i32|
        {
            &&& (x1 as int, y1 as int) == earth_cell_point(f)
            &&& (x2 as int, y2 as int) == earth_cloud_point(f, time)
            &&& noise_2d.ensures((x1, y1), n1)
            &&& noise_2d.ensures((x2, y2), n2)
            &&& c == earth_color(f, n1 as int, n2 as int)
        }
}

/// The earth surface given its two noise samples.
pub fn earth_shade(fragment: &Fragment, cell_noise: i32, cloud_noise: i32) -> (c: Color)
    ensures
        c == earth_color(*fragment, cell_noise as int, cloud_noise as int),
{
    let n = cell_noise as i64;
    let cell = if n < 0 {
        -n
    } else {
        n
    };
    let land = if 100 * cell < 15 * (ONE as i64) {
        Color::new(85, 107, 47)
    } else if 10 * cell < 7 * (ONE as i64) {
        Color::new(2, 100, 177)
    } else if 4 * cell < 3 * (ONE as i64) {
        Color::new(85, 107, 47)
    } else {
        Color::new(133, 98, 57)
    };
    let surface = if cloud_noise > HALF {
        let cloud = Color::new(255, 255, 255);
        land.blend_normal(&cloud).mul_intensity(HALF).add(&land.mul_intensity(HALF))
    } else {
        land
    };
    surface.mul_intensity(fragment.intensity)
}

/// Earth: land and water from one noise sample, drifting clouds from another.
pub fn earth<N: Fn(i64, i64) -> i32>(fragment: &Fragment, uniforms: &Uniforms, noise_2d: N) -> (c: Color)
    requires
        forall|x: i64, y: i64| noise_2d.requires((x, y)),
    ensures
        earth_shaded_by(*fragment, uniforms.time as int, noise_2d, c),
{
    let x = fragment.vertex_position.x as i64;
    let y = fragment.vertex_position.y as i64;
    let t = uniforms.time as i64;
    let one = ONE as i64;
    proof {
        crate::fixed::lemma_mul_bound(t as int, HALF as int, 0x1_0000_0000, HALF as int);
    }
    let n1 = noise_2d(x * 30 + 50 * one, y * 30 + 50 * one);
    let n2 = noise_2d(x * 100 + 100 * one + t * (HALF as i64), y * 100 + 100 * one);
    earth_shade(fragment, n1, n2)
}

/// The star surface's palette: a dark orange and a pale yellow.
pub open spec fn star_color(f: Fragment, n1: int, n2: int) -> Color {
    let avg = (n1 + n2) / 2;
    scaled(
        lerped(Color { r: 255, g: 193, b: 108 }, Color { r: 255, g: 253, b: 190 }, avg),
        f.intensity as int,
    )
}

/// The two 3D points where the star surface samples noise; `pulse` moves them
/// along z as the star pulsates.
pub open spec fn star_points(f: Fragment, pulse: int) -> ((int, int, int), (int, int, int)) {
    let (x, y, z) = (f.vertex_position.x as int, f.vertex_position.y as int, f.depth as int);
    (
        (x * 1000, y * 1000, (z + pulse) * 1000),
        ((x + 1000 * ONE) * 1000, (y + 1000 * ONE) * 1000, (z + 1000 * ONE + pulse) * 1000),
    )
}

/// `c` is the star surface's colour for some samples that `noise_3d` may
/// return at the fragment's two noise points.
pub open spec fn star_shaded_by<N: Fn(i64, i64, i64) -> i32>(f: Fragment, pulse: int, noise_3d: N, c: Color) -> bool {
    exists|p: (i64, i64, i64), q: (i64, i64, i64), n1: i32, n2: i32|
        {
            &&& ((p.0 as int, p.1 as int, p.2 as int), (q.0 as int, q.1 as int, q.2 as int))
                == star_points(f, pulse)
            &&& noise_3d.ensures(p, n1)
            &&& noise_3d.ensures(q, n2)
            &&& c == star_color(f, n1 as int, n2 as int)
        }
}

/// The star surface given its two noise samples: their mean blends the dark
/// colour toward the bright one.
pub fn star_shade(fragment: &Fragment, n1: i32, n2: i32) -> (c: Color)
    ensures
        c == star_color(*fragment, n1 as int, n2 as int),
{
    let sum = n1 as i64 + n2 as i64;
    let avg = crate::fixed::floor_div(sum as i128, 2) as i32;
    let dark = Color::new(255, 193, 108);
    let bright = Color::new(255, 253, 190);
    dark.lerp(&bright, avg).mul_intensity(fragment.intensity)
}

/// The sun: two 3D noise samples blend orange toward pale yellow. `pulse` is
/// the frame's pulsation offset (Q16.16), which the caller derives from the
/// frame time.
pub fn star<N: Fn(i64, i64, i64) -> i32>(
    fragment: &Fragment,
    uniforms: &Uniforms,
    pulse: i32,
    noise_3d: N,
) -> (c: Color)
    requires
        forall|x: i64, y: i64, z: i64| noise_3d.requires((x, y, z)),
    ensures
        star_shaded_by(*fragment, pulse as int, noise_3d, c),
{
    let x = fragment.vertex_position.x as i64;
    let y = fragment.vertex_position.y as i64;
    let z = fragment.depth as i64;
    let w = pulse as i64;
    let far = 1000 * (ONE as i64);
    let p = (x * 1000, y * 1000, (z + w) * 1000);
    let q = ((x + far) * 1000, (y + far) * 1000, (z + far + w) * 1000);
    let n1 = noise_3d(p.0, p.1, p.2);
    let n2 = noise_3d(q.0, q.1, q.2);
    star_shade(fragment, n1, n2)
}

/// The shading policy used for the sun object.
pub fn fragment_shader<N: Fn(i64, i64, i64) -> i32>(
    fragment: &Fragment,
    uniforms: &Uniforms,
    pulse: i32,
    noise_3d: N,
) -> (c: Color)
    requires
        forall|x: i64, y: i64, z: i64| noise_3d.requires((x, y, z)),
    ensures
        star_shaded_by(*fragment, pulse as int, noise_3d, c),
{
    star(fragment, uniforms, pulse, noise_3d)
}

/// A noise sampler that gives one value for each point.
pub open spec fn deterministic_2d<N: Fn(i64, i64) -> i32>(noise_2d: N) -> bool {
    forall|x: i64, y: i64, n1: i32, n2: i32|
        noise_2d.ensures((x, y), n1) && noise_2d.ensures((x, y), n2) ==> n1 == n2
}

/// A 3D noise sampler that gives one value for each point.
pub open spec fn deterministic_3d<N: Fn(i64, i64, i64) -> i32>(noise_3d: N) -> bool {
    forall|p: (i64, i64, i64), n1: i32, n2: i32|
        noise_3d.ensures(p, n1) && noise_3d.ensures(p, n2) ==> n1 == n2
}

/// With a deterministic noise sampler, a two-colour surface shades a fragment
/// to one colour only: two calls on the same fragment agree.
pub proof fn lemma_surface_deterministic<N: Fn(i64, i64) -> i32>(
    s: SpotSurface,
    f: Fragment,
    noise_2d: N,
    c1: Color,
    c2: Color,
)
    requires
        deterministic_2d(noise_2d),
        shaded_by(s, f, noise_2d, c1),
        shaded_by(s, f, noise_2d, c2),
    ensures
        c1 == c2,
{
    let (x1, y1, n1) = choose|x: i64, y: i64, n: i32|
        (x as int, y as int) == s.noise_point_spec(f) && noise_2d.ensures((x, y), n) && c1
            == s.color_for(f, n as int);
    let (x2, y2, n2) = choose|x: i64, y: i64, n: i32|
        (x as int, y as int) == s.noise_point_spec(f) && noise_2d.ensures((x, y), n) && c2
            == s.color_for(f, n as int);
    assert(x1 == x2 && y1 == y2);
    assert(n1 == n2);
}

/// With a deterministic noise sampler, the earth surface shades a fragment at a
/// given time to one colour only.
pub proof fn lemma_earth_deterministic<N: Fn(i64, i64) -> i32>(
    f: Fragment,
    time: int,
    noise_2d: N,
    c1: Color,
    c2: Color,
)
    requires
        deterministic_2d(noise_2d),
        earth_shaded_by(f, time, noise_2d, c1),
        earth_shaded_by(f, time, noise_2d, c2),
    ensures
        c1 == c2,
{
    let (a1, b1, m1, a2, b2, m2) = choose|x1: i64, y1: i64, n1: i32, x2: i64, y2: i64, n2: i32|
        {
            &&& (x1 as int, y1 as int) == earth_cell_point(f)
            &&& (x2 as int, y2 as int) == earth_cloud_point(f, time)
            &&& noise_2d.ensures((x1, y1), n1)
            &&& noise_2d.ensures((x2, y2), n2)
            &&& c1 == earth_color(f, n1 as int, n2 as int)
        };
    let (d1, e1, k1, d2, e2, k2) = choose|x1: i64, y1: i64, n1: i32, x2: i64, y2: i64, n2: i32|
        {
            &&& (x1 as int, y1 as int) == earth_cell_point(f)
            &&& (x2 as int, y2 as int) == earth_cloud_point(f, time)
            &&& noise_2d.ensures((x1, y1), n1)
            &&& noise_2d.ensures((x2, y2), n2)
            &&& c2 == earth_color(f, n1 as int, n2 as int)
        };
    assert(a1 == d1 && b1 == e1 && a2 == d2 && b2 == e2);
    assert(m1 == k1 && m2 == k2);
}

/// With a deterministic noise sampler, the star surface shades a fragment with
/// a given pulsation to one colour only.
pub proof fn lemma_star_deterministic<N: Fn(i64, i64, i64) -> i32>(
    f: Fragment,
    pulse: int,
    noise_3d: N,
    c1: Color,
    c2: Color,
)
    requires
        deterministic_3d(noise_3d),
        star_shaded_by(f, pulse, noise_3d, c1),
        star_shaded_by(f, pulse, noise_3d, c2),
    ensures
        c1 == c2,
{
    let (p1, q1, m1, m2) = choose|p: (i64, i64, i64), q: (i64, i64, i64), n1: i32, n2: i32|
        {
            &&& ((p.0 as int, p.1 as int, p.2 as int), (q.0 as int, q.1 as int, q.2 as int))
                == star_points(f, pulse)
            &&& noise_3d.ensures(p, n1)
            &&& noise_3d.ensures(q, n2)
            &&& c1 == star_color(f, n1 as int, n2 as int)
        };
    let (p2, q2, k1, k2) = choose|p: (i64, i64, i64), q: (i64, i64, i64), n1: i32, n2: i32|
        {
            &&& ((p.0 as int, p.1 as int, p.2 as int), (q.0 as int, q.1 as int, q.2 as int))
                == star_points(f, pulse)
            &&& noise_3d.ensures(p, n1)
            &&& noise_3d.ensures(q, n2)
            &&& c2 == star_color(f, n1 as int, n2 as int)
        };
    assert(p1 == p2 && q1 == q2);
    assert(m1 == k1 && m2 == k2);
}

} // verus!
