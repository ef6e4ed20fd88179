use softraster::fixed::ONE;
use softraster::linalg::{Vec2, Vec3};
use softraster::raster::{triangle, AMBIENT};
use softraster::vertex::Vertex;

fn screen_vertex(x: i32, y: i32, z: i32) -> Vertex {
    let mut v = Vertex::new(Vec3::new(x, y, z), Vec3::new(0, 0, ONE), Vec2::new(0, 0));
    v.transformed_position = Vec3::new(x * ONE, y * ONE, z);
    v
}

fn pixels(v1: &Vertex, v2: &Vertex, v3: &Vertex, w: usize, h: usize) -> Vec<(usize, usize)> {
    triangle(v1, v2, v3, w, h).iter().map(|f| (f.x, f.y)).collect()
}

#[test]
fn right_triangle_pixel_set() {
    let a = screen_vertex(0, 0, 0);
    let b = screen_vertex(4, 0, 0);
    let c = screen_vertex(0, 4, 0);
    let got = pixels(&a, &b, &c, 16, 16);
    let mut want = Vec::new();
    for y in 0..4usize {
        for x in 0..4usize {
            if x + y <= 3 {
                want.push((x, y));
            }
        }
    }
    assert_eq!(got, want);
}

#[test]
fn winding_does_not_change_coverage() {
    let a = screen_vertex(0, 0, 0);
    let b = screen_vertex(4, 0, 0);
    let c = screen_vertex(0, 4, 0);
    assert_eq!(pixels(&a, &b, &c, 16, 16), pixels(&a, &c, &b, 16, 16));
    assert_eq!(pixels(&a, &b, &c, 16, 16), pixels(&c, &a, &b, 16, 16));
}

#[test]
fn adjacent_triangles_tile_the_square() {
    let p00 = screen_vertex(0, 0, 0);
    let p40 = screen_vertex(4, 0, 0);
    let p04 = screen_vertex(0, 4, 0);
    let p44 = screen_vertex(4, 4, 0);
    let first = pixels(&p00, &p40, &p04, 16, 16);
    let second = pixels(&p40, &p04, &p44, 16, 16);
    assert_eq!(first.len() + second.len(), 16);
    for p in &first {
        assert!(!second.contains(p));
    }
    for y in 0..4usize {
        for x in 0..4usize {
            assert!(first.contains(&(x, y)) || second.contains(&(x, y)));
        }
    }
}

#[test]
fn degenerate_triangle_yields_nothing() {
    let a = screen_vertex(1, 1, 0);
    let b = screen_vertex(1, 1, 0);
    let c = screen_vertex(5, 5, 0);
    assert!(triangle(&a, &b, &c, 16, 16).is_empty());
    let d = screen_vertex(3, 3, 0);
    assert!(triangle(&a, &d, &c, 16, 16).is_empty());
}

#[test]
fn triangle_is_clipped_to_screen() {
    let a = screen_vertex(-4, -4, 0);
    let b = screen_vertex(20, -4, 0);
    let c = screen_vertex(-4, 20, 0);
    let got = pixels(&a, &b, &c, 3, 2);
    assert_eq!(got, vec![(0, 0), (1, 0), (2, 0), (0, 1), (1, 1), (2, 1)]);
    assert!(triangle(&a, &b, &c, 0, 5).is_empty());
}

#[test]
fn triangle_off_screen_yields_nothing() {
    let a = screen_vertex(100, 100, 0);
    let b = screen_vertex(104, 100, 0);
    let c = screen_vertex(100, 104, 0);
    assert!(triangle(&a, &b, &c, 16, 16).is_empty());
}

#[test]
fn depth_and_position_are_interpolated() {
    let mut a = screen_vertex(0, 0, 0);
    let mut b = screen_vertex(8, 0, 8 * ONE);
    let mut c = screen_vertex(0, 8, 0);
    a.position = Vec3::new(0, 0, 0);
    b.position = Vec3::new(8 * ONE, 0, 0);
    c.position = Vec3::new(0, 8 * ONE, 0);
    let frags = triangle(&a, &b, &c, 16, 16);
    let f = frags.iter().find(|f| f.x == 2 && f.y == 1).unwrap();
    // the centre (2.5, 1.5): depth follows x
    assert_eq!(f.depth, 5 * ONE / 2);
    assert_eq!(f.vertex_position, Vec3::new(5 * ONE / 2, 3 * ONE / 2, 0));
}

#[test]
fn intensity_follows_normal_with_ambient_floor() {
    let mut a = screen_vertex(0, 0, 0);
    let mut b = screen_vertex(4, 0, 0);
    let mut c = screen_vertex(0, 4, 0);
    for v in [&mut a, &mut b, &mut c] {
        v.transformed_normal = Vec3::new(0, 0, ONE / 2);
    }
    let lit = triangle(&a, &b, &c, 8, 8);
    assert!(lit.iter().all(|f| f.intensity == ONE / 2 && f.normal == Vec3::new(0, 0, ONE / 2)));
    for v in [&mut a, &mut b, &mut c] {
        v.transformed_normal = Vec3::new(0, 0, -ONE);
    }
    let dark = triangle(&a, &b, &c, 8, 8);
    assert!(dark.iter().all(|f| f.intensity == AMBIENT));
}

#[test]
fn fragments_come_in_row_major_order() {
    let a = screen_vertex(1, 0, 0);
    let b = screen_vertex(7, 3, 0);
    let c = screen_vertex(0, 6, 0);
    let frags = triangle(&a, &b, &c, 16, 16);
    assert!(!frags.is_empty());
    for w in frags.windows(2) {
        assert!((w[0].y, w[0].x) < (w[1].y, w[1].x));
    }
}
