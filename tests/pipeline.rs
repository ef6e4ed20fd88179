use softraster::color::Color;
use softraster::fixed::ONE;
use softraster::fragment::Fragment;
use softraster::framebuffer::{Framebuffer, DEPTH_FAR};
use softraster::linalg::{Mat4, Vec2, Vec3, Vec4};
use softraster::pipeline::render_with_shader;
use softraster::transform::{create_viewport_matrix, normal_matrix_apply, vertex_shader};
use softraster::uniforms::Uniforms;
use softraster::vertex::Vertex;

fn uniforms(width: usize, height: usize) -> Uniforms {
    Uniforms {
        model_matrix: Mat4::identity(),
        view_matrix: Mat4::identity(),
        projection_matrix: Mat4::identity(),
        viewport_matrix: create_viewport_matrix(width, height),
        time: 0,
    }
}

fn model_vertex(x: i32, y: i32, z: i32) -> Vertex {
    Vertex::new(Vec3::new(x, y, z), Vec3::new(0, 0, ONE), Vec2::new(0, 0))
}

#[test]
fn viewport_matrix_entries() {
    let m = create_viewport_matrix(800, 600);
    assert_eq!(m.row0, Vec4::new(400 * ONE, 0, 0, 400 * ONE));
    assert_eq!(m.row1, Vec4::new(0, -300 * ONE, 0, 300 * ONE));
    assert_eq!(m.row2, Vec4::new(0, 0, ONE, 0));
    assert_eq!(m.row3, Vec4::new(0, 0, 0, ONE));
}

#[test]
fn origin_maps_to_screen_centre() {
    let u = uniforms(800, 600);
    let v = vertex_shader(&model_vertex(0, 0, ONE / 4), &u).unwrap();
    assert_eq!(v.transformed_position, Vec3::new(400 * ONE, 300 * ONE, ONE / 4));
    assert_eq!(v.position, Vec3::new(0, 0, ONE / 4));
    assert_eq!(v.transformed_normal, Vec3::new(0, 0, ONE));
}

#[test]
fn corners_map_with_y_flipped() {
    let u = uniforms(800, 600);
    let v = vertex_shader(&model_vertex(-ONE, ONE, 0), &u).unwrap();
    assert_eq!(v.transformed_position, Vec3::new(0, 0, 0));
    let w = vertex_shader(&model_vertex(ONE, -ONE, 0), &u).unwrap();
    assert_eq!(w.transformed_position, Vec3::new(800 * ONE, 600 * ONE, 0));
}

#[test]
fn perspective_divide_by_w() {
    let mut u = uniforms(8, 8);
    // w = 2: the clip position is halved
    u.projection_matrix = Mat4::new(
        ONE, 0, 0, 0, 0, ONE, 0, 0, 0, 0, ONE, 0, 0, 0, 0, 2 * ONE,
    );
    let v = vertex_shader(&model_vertex(ONE, 0, ONE), &u).unwrap();
    assert_eq!(v.transformed_position, Vec3::new(6 * ONE, 4 * ONE, ONE / 2));
}

#[test]
fn zero_w_vertex_is_skipped() {
    let mut u = uniforms(8, 8);
    u.projection_matrix = Mat4::new(ONE, 0, 0, 0, 0, ONE, 0, 0, 0, 0, ONE, 0, 0, 0, 0, 0);
    assert_eq!(vertex_shader(&model_vertex(ONE, ONE, ONE), &u), None);
}

#[test]
fn normal_matrix_of_uniform_scale() {
    let scale = Mat4::new(2 * ONE, 0, 0, 0, 0, 2 * ONE, 0, 0, 0, 0, 2 * ONE, 0, 0, 0, 0, ONE);
    let n = normal_matrix_apply(&scale, &Vec3::new(ONE, -ONE, ONE / 2));
    assert_eq!(n, Vec3::new(ONE / 2, -ONE / 2, ONE / 4));
    let same = normal_matrix_apply(&Mat4::identity(), &Vec3::new(3, -5, 7));
    assert_eq!(same, Vec3::new(3, -5, 7));
}

#[test]
fn singular_model_keeps_normal() {
    let flat = Mat4::new(ONE, 0, 0, 0, 0, ONE, 0, 0, 0, 0, 0, 0, 0, 0, 0, ONE);
    let n = normal_matrix_apply(&flat, &Vec3::new(1, 2, 3));
    assert_eq!(n, Vec3::new(1, 2, 3));
}

#[test]
fn solid_red_triangle_end_to_end() {
    let u = uniforms(8, 8);
    let z = ONE / 2;
    let verts = vec![model_vertex(-ONE, -ONE, z), model_vertex(ONE, -ONE, z), model_vertex(-ONE, ONE, z)];
    let mut fb = Framebuffer::new(8, 8);
    render_with_shader(&mut fb, &u, &verts, |_f: &Fragment, _u: &Uniforms| Color::new(255, 0, 0));
    for y in 0..8usize {
        for x in 0..8usize {
            let i = y * 8 + x;
            if x <= y {
                assert_eq!((fb.buffer[i], fb.zbuffer[i]), (0xFF0000, z), "pixel {x},{y}");
            } else {
                assert_eq!((fb.buffer[i], fb.zbuffer[i]), (0, DEPTH_FAR), "pixel {x},{y}");
            }
        }
    }
}

#[test]
fn trailing_vertices_are_dropped() {
    let u = uniforms(8, 8);
    let z = ONE / 2;
    let mut verts = vec![model_vertex(-ONE, -ONE, z), model_vertex(ONE, -ONE, z), model_vertex(-ONE, ONE, z)];
    let mut fb = Framebuffer::new(8, 8);
    render_with_shader(&mut fb, &u, &verts, |_f: &Fragment, _u: &Uniforms| Color::new(0, 0, 255));
    verts.push(model_vertex(ONE, ONE, 0));
    verts.push(model_vertex(ONE, -ONE, 0));
    let mut fb2 = Framebuffer::new(8, 8);
    render_with_shader(&mut fb2, &u, &verts, |_f: &Fragment, _u: &Uniforms| Color::new(0, 0, 255));
    assert_eq!(fb.buffer, fb2.buffer);
    assert_eq!(fb.zbuffer, fb2.zbuffer);
}

#[test]
fn nearer_object_occludes_regardless_of_order() {
    let u = uniforms(8, 8);
    let near = vec![model_vertex(-ONE, -ONE, ONE / 4), model_vertex(ONE, -ONE, ONE / 4), model_vertex(-ONE, ONE, ONE / 4)];
    let far = vec![model_vertex(-ONE, -ONE, ONE / 2), model_vertex(ONE, -ONE, ONE / 2), model_vertex(-ONE, ONE, ONE / 2)];
    let red = |_f: &Fragment, _u: &Uniforms| Color::new(255, 0, 0);
    let green = |_f: &Fragment, _u: &Uniforms| Color::new(0, 255, 0);
    let mut a = Framebuffer::new(8, 8);
    render_with_shader(&mut a, &u, &near, red);
    render_with_shader(&mut a, &u, &far, green);
    let mut b = Framebuffer::new(8, 8);
    render_with_shader(&mut b, &u, &far, green);
    render_with_shader(&mut b, &u, &near, red);
    assert_eq!(a.buffer, b.buffer);
    assert_eq!(a.buffer[8 * 7], 0xFF0000);
}

#[test]
fn shader_sees_interpolated_fragment() {
    let u = uniforms(8, 8);
    let verts = vec![model_vertex(-ONE, -ONE, 0), model_vertex(ONE, -ONE, 0), model_vertex(-ONE, ONE, 0)];
    let mut fb = Framebuffer::new(8, 8);
    render_with_shader(&mut fb, &u, &verts, |f: &Fragment, _u: &Uniforms| {
        let lit = if f.intensity == ONE { 255 } else { 0 };
        Color::new(f.x as u8 * 10, f.y as u8 * 10, lit)
    });
    // pixel (1, 5): the model normal faces the light, so the intensity is one unit
    assert_eq!(fb.buffer[5 * 8 + 1], 0x0A32FF);
}
