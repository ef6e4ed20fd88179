use softraster::color::Color;
use softraster::fixed::{HALF, ONE};
use softraster::fragment::Fragment;
use softraster::linalg::{Mat4, Vec3};
use softraster::shaders::{
    bands, earth, earth_shade, fragment_shader, jupiter, luna, marte, mercurio, neptuno,
    planetaE1, planetaE2, planetaE3, saturno, spots, star, star_shade, urano1, venus, Pattern,
};
use softraster::uniforms::Uniforms;

fn frag(x: i32, y: i32, intensity: i32) -> Fragment {
    Fragment {
        x: 0,
        y: 0,
        depth: ONE / 4,
        vertex_position: Vec3::new(x, y, 0),
        normal: Vec3::new(0, 0, ONE),
        intensity,
    }
}

fn uniforms(time: u32) -> Uniforms {
    Uniforms {
        model_matrix: Mat4::identity(),
        view_matrix: Mat4::identity(),
        projection_matrix: Mat4::identity(),
        viewport_matrix: Mat4::identity(),
        time,
    }
}

#[test]
fn color_hex_and_arithmetic() {
    assert_eq!(Color::new(0x12, 0x34, 0x56).to_hex(), 0x123456);
    assert_eq!(Color::new(200, 100, 3).mul_intensity(HALF), Color::new(100, 50, 1));
    assert_eq!(Color::new(200, 100, 3).mul_intensity(2 * ONE), Color::new(255, 200, 6));
    assert_eq!(Color::new(200, 100, 3).mul_intensity(-ONE), Color::new(0, 0, 0));
    assert_eq!(Color::new(200, 100, 3).add(&Color::new(100, 100, 100)), Color::new(255, 200, 103));
    assert_eq!(Color::new(0, 100, 200).lerp(&Color::new(100, 0, 200), HALF), Color::new(50, 50, 200));
    assert_eq!(Color::new(0, 100, 200).lerp(&Color::new(100, 0, 200), 3 * ONE), Color::new(100, 0, 200));
    assert_eq!(Color::new(0, 100, 200).lerp(&Color::new(100, 0, 200), -ONE), Color::new(0, 100, 200));
    assert_eq!(Color::new(1, 2, 3).blend_normal(&Color::new(4, 5, 6)), Color::new(4, 5, 6));
    assert_eq!(Color::black(), Color::new(0, 0, 0));
}

#[test]
fn spots_sample_at_scaled_position() {
    let s = spots(Color::new(1, 2, 3), Color::new(4, 5, 6));
    assert_eq!(s.pattern, Pattern::Spots);
    let f = frag(ONE / 2, -ONE, ONE);
    assert_eq!(s.noise_point(&f), (50 * ONE as i64, -100 * ONE as i64));
    assert_eq!(s.shade(&f, 0), Color::new(1, 2, 3));
    assert_eq!(s.shade(&f, HALF), Color::new(4, 5, 6));
}

#[test]
fn bands_sample_along_y() {
    let s = bands(Color::new(1, 2, 3), Color::new(4, 5, 6));
    let f = frag(7 * ONE, ONE / 2, ONE);
    assert_eq!(s.noise_point(&f), (25 * ONE as i64, 0));
    assert_eq!(s.shade(&f, 1), Color::new(1, 2, 3));
    assert_eq!(s.shade(&f, 0), Color::new(4, 5, 6));
    assert_eq!(s.shade(&f, -1), Color::new(4, 5, 6));
}

#[test]
fn luna_picks_dark_spots_below_threshold() {
    let u = uniforms(0);
    let f = frag(ONE, ONE, ONE);
    let low = luna(&f, &u, |_x: i64, _y: i64| 0);
    let high = luna(&f, &u, |_x: i64, _y: i64| ONE);
    assert_eq!(low, Color::new(135, 135, 135));
    assert_eq!(high, Color::new(191, 191, 191));
    let dim = luna(&frag(ONE, ONE, HALF), &u, |_x: i64, _y: i64| ONE);
    assert_eq!(dim, Color::new(95, 95, 95));
}

#[test]
fn single_color_planets() {
    let u = uniforms(0);
    let f = frag(ONE, ONE, ONE);
    let n = |_x: i64, _y: i64| 0;
    assert_eq!(mercurio(&f, &u, n), Color::new(223, 223, 223));
    assert_eq!(neptuno(&f, &u, n), Color::new(152, 221, 255));
    assert_eq!(planetaE1(&f, &u, n), Color::new(131, 255, 0));
    assert_eq!(planetaE2(&f, &u, n), Color::new(255, 0, 243));
    assert_eq!(planetaE3(&f, &u, n), Color::new(166, 0, 255));
    assert_eq!(venus(&f, &u, n), Color::new(255, 0, 243));
    assert_eq!(jupiter(&f, &u, n), Color::new(255, 0, 243));
}

#[test]
fn banded_planets_split_on_sign() {
    let u = uniforms(0);
    let f = frag(ONE, ONE, ONE);
    let pos = |_x: i64, _y: i64| ONE / 3;
    let neg = |_x: i64, _y: i64| -ONE / 3;
    assert_eq!(saturno(&f, &u, pos), Color::new(255, 233, 11));
    assert_eq!(saturno(&f, &u, neg), Color::new(224, 142, 104));
    assert_eq!(marte(&f, &u, pos), Color::new(143, 78, 54));
    assert_eq!(marte(&f, &u, neg), Color::new(204, 22, 0));
    assert_eq!(urano1(&f, &u, pos), Color::new(0, 255, 212));
    assert_eq!(urano1(&f, &u, neg), Color::new(0, 220, 255));
}

#[test]
fn planet_samples_noise_at_its_point() {
    let u = uniforms(0);
    let f = frag(ONE, 3 * ONE, ONE);
    // only the bands' point (150, 0) gives a positive sample
    let n = |x: i64, y: i64| if x == 150 * ONE as i64 && y == 0 { 1 } else { -1 };
    assert_eq!(saturno(&f, &u, n), Color::new(255, 233, 11));
    let m = |x: i64, y: i64| if x == 100 * ONE as i64 && y == 300 * ONE as i64 { 0 } else { ONE };
    assert_eq!(luna(&f, &u, m), Color::new(135, 135, 135));
}

#[test]
fn earth_palette_by_thresholds() {
    let f = frag(0, 0, ONE);
    assert_eq!(earth_shade(&f, 0, 0), Color::new(85, 107, 47));
    assert_eq!(earth_shade(&f, -ONE / 2, 0), Color::new(2, 100, 177));
    assert_eq!(earth_shade(&f, 47000, 0), Color::new(85, 107, 47));
    assert_eq!(earth_shade(&f, -ONE, 0), Color::new(133, 98, 57));
    // clouds: half white over half land
    assert_eq!(earth_shade(&f, ONE / 2, ONE), Color::new(128, 177, 215));
    assert_eq!(earth_shade(&f, ONE / 2, HALF), Color::new(2, 100, 177));
}

#[test]
fn earth_clouds_drift_with_time() {
    let f = frag(0, 0, ONE);
    let cloudy_at = |t: u32| {
        earth(&f, &uniforms(t), move |x: i64, y: i64| {
            if y == 100 * ONE as i64 && x == 100 * ONE as i64 + t as i64 * HALF as i64 {
                ONE
            } else {
                ONE / 2
            }
        })
    };
    assert_eq!(cloudy_at(0), Color::new(128, 177, 215));
    assert_eq!(cloudy_at(10), Color::new(128, 177, 215));
    let still = earth(&f, &uniforms(10), |_x: i64, _y: i64| ONE / 2);
    assert_eq!(still, Color::new(2, 100, 177));
}

#[test]
fn star_blends_dark_to_bright() {
    let f = frag(0, 0, ONE);
    assert_eq!(star_shade(&f, -ONE, -ONE), Color::new(255, 193, 108));
    assert_eq!(star_shade(&f, ONE, ONE), Color::new(255, 253, 190));
    assert_eq!(star_shade(&f, ONE, 0), Color::new(255, 223, 149));
    let u = uniforms(0);
    assert_eq!(star(&f, &u, 0, |_x: i64, _y: i64, _z: i64| ONE), Color::new(255, 253, 190));
    assert_eq!(fragment_shader(&f, &u, 0, |_x: i64, _y: i64, _z: i64| ONE), Color::new(255, 253, 190));
}

#[test]
fn shading_is_deterministic() {
    let u = uniforms(3);
    let f = frag(ONE / 3, -ONE / 7, 40000);
    let n2 = |x: i64, y: i64| ((x.wrapping_mul(31) ^ y) % ONE as i64) as i32;
    let n3 = |x: i64, y: i64, z: i64| ((x ^ y.wrapping_mul(7) ^ z) % ONE as i64) as i32;
    assert_eq!(luna(&f, &u, n2), luna(&f, &u, n2));
    assert_eq!(earth(&f, &u, n2), earth(&f, &u, n2));
    assert_eq!(star(&f, &u, 123, n3), star(&f, &u, 123, n3));
}
