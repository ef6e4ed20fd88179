//! The vertex transform stage: model, view and projection matrices, the
//! perspective divide, the viewport mapping, and the normal matrix.
use vstd::prelude::*;
use crate::fixed::{ONE, HALF, clamp_i32, div_floor, floor_div_signed, saturate_i32, lemma_mul_bound};
use crate::linalg::{Vec3, Vec4, Mat4, mat_vec};
use crate::uniforms::Uniforms;
use crate::vertex::Vertex;

verus! {

/// The first row of the cofactor matrix of the upper-left 3x3 block.
pub open spec fn cof_row0(m: Mat4) -> (int, int, int) {
    let (d, e, f) = (m.row1.x as int, m.row1.y as int, m.row1.z as int);
    let (g, h, i) = (m.row2.x as int, m.row2.y as int, m.row2.z as int);
    (e * i - f * h, f * g - d * i, d * h - e * g)
}

/// The second row of the cofactor matrix of the upper-left 3x3 block.
pub open spec fn cof_row1(m: Mat4) -> (int, int, int) {
    let (a, b, c) = (m.row0.x as int, m.row0.y as int, m.row0.z as int);
    let (g, h, i) = (m.row2.x as int, m.row2.y as int, m.row2.z as int);
    (c * h - b * i, a * i - c * g, b * g - a * h)
}

/// The third row of the cofactor matrix of the upper-left 3x3 block.
pub open spec fn cof_row2(m: Mat4) -> (int, int, int) {
    let (a, b, c) = (m.row0.x as int, m.row0.y as int, m.row0.z as int);
    let (d, e, f) = (m.row1.x as int, m.row1.y as int, m.row1.z as int);
    (b * f - c * e, c * d - a * f, a * e - b * d)
}

/// The determinant of the upper-left 3x3 block (raw, in units of `ONE^3`).
pub open spec fn det3(m: Mat4) -> int {
    let c = cof_row0(m);
    c.0 * m.row0.x + c.1 * m.row0.y + c.2 * m.row0.z
}

/// One component of the inverse-transpose applied to `n`: the cofactor row
/// dotted with `n`, divided by the determinant, in Q16.16.
pub open spec fn normal_component(row: (int, int, int), n: Vec3, det: int) -> i32 {
    clamp_i32(div_floor(ONE * (row.0 * n.x + row.1 * n.y + row.2 * n.z), det)) as i32
}

/// The normal transformed by the inverse-transpose of the model matrix's
/// upper-left 3x3 block, or left as it is when that block is singular.
pub open spec fn transform_normal(m: Mat4, n: Vec3) -> Vec3 {
    let det = det3(m);
    if det == 0 {
        n
    } else {
        Vec3 {
            x: normal_component(cof_row0(m), n, det),
            y: normal_component(cof_row1(m), n, det),
            z: normal_component(cof_row2(m), n, det),
        }
    }
}

/// A clip-space coordinate divided by `w`, in Q16.16.
pub open spec fn perspective_divide(a: i32, w: i32) -> i32 {
    clamp_i32(div_floor(a * ONE, w as int)) as i32
}

/// The clip-space position of a model-space point.
pub open spec fn clip_position(u: Uniforms, p: Vec3) -> Vec4 {
    mat_vec(
        u.projection_matrix,
        mat_vec(u.view_matrix, mat_vec(u.model_matrix, Vec4 { x: p.x, y: p.y, z: p.z, w: ONE })),
    )
}

/// The screen-space position of a model-space point, or `None` where the clip
/// `w` is zero and the perspective divide is undefined.
pub open spec fn screen_position(u: Uniforms, p: Vec3) -> Option<Vec3> {
    let c = clip_position(u, p);
    if c.w == 0 {
        None
    } else {
        let ndc = Vec4 {
            x: perspective_divide(c.x, c.w),
            y: perspective_divide(c.y, c.w),
            z: perspective_divide(c.z, c.w),
            w: ONE,
        };
        let s = mat_vec(u.viewport_matrix, ndc);
        Some(Vec3 { x: s.x, y: s.y, z: s.z })
    }
}

/// The vertex with its screen position and transformed normal filled in, or
/// `None` where its position cannot be projected.
pub open spec fn transformed_vertex(v: Vertex, u: Uniforms) -> Option<Vertex> {
    match screen_position(u, v.position) {
        None => None,
        Some(s) => Some(
            Vertex {
                transformed_position: s,
                transformed_normal: transform_normal(u.model_matrix, v.normal),
                ..v
            },
        ),
    }
}

/// The viewport matrix of a `width` by `height` screen: x from `[-1, 1]` to
/// `[0, width]`, y flipped from `[-1, 1]` to `[height, 0]`, depth unchanged.
pub open spec fn viewport_of(width: int, height: int) -> Mat4 {
    Mat4 {
        row0: Vec4 { x: (width * HALF) as i32, y: 0, z: 0, w: (width * HALF) as i32 },
        row1: Vec4 { x: 0, y: (-height * HALF) as i32, z: 0, w: (height * HALF) as i32 },
        row2: Vec4 { x: 0, y: 0, z: ONE, w: 0 },
        row3: Vec4 { x: 0, y: 0, z: 0, w: ONE },
    }
}

/// The viewport matrix for a `width` by `height` framebuffer. Screen positions
/// are Q16.16 numbers, so each side is at most 32767 pixels.
pub fn create_viewport_matrix(width: usize, height: usize) -> (m: Mat4)
    requires
        width <= 32767,
        height <= 32767,
    ensures
        m == viewport_of(width as int, height as int),
{
    let w = (width as i32) * HALF;
    let h = (height as i32) * HALF;
    Mat4::new(w, 0, 0, w, 0, -h, 0, h, 0, 0, ONE, 0, 0, 0, 0, ONE)
}

const B31: i128 = 0x8000_0000;

const B63: i128 = 0x8000_0000_0000_0000;

/// `p * q - r * s` for entries of the matrix.
fn minor2(p: i32, q: i32, r: i32, s: i32) -> (v: i128)
    ensures
        v == p * q - r * s,
        -B63 <= v <= B63,
{
    proof {
        lemma_mul_bound(p as int, q as int, B31 as int, B31 as int);
        lemma_mul_bound(r as int, s as int, B31 as int, B31 as int);
    }
    (p as i128) * (q as i128) - (r as i128) * (s as i128)
}

/// `c0 * x + c1 * y + c2 * z` for cofactors and an `i32` vector.
fn combine3(c0: i128, c1: i128, c2: i128, x: i32, y: i32, z: i32) -> (v: i128)
    requires
        -B63 <= c0 <= B63,
        -B63 <= c1 <= B63,
        -B63 <= c2 <= B63,
    ensures
        v == c0 * x + c1 * y + c2 * z,
        -3 * B63 * B31 <= v <= 3 * B63 * B31,
{
    proof {
        lemma_mul_bound(c0 as int, x as int, B63 as int, B31 as int);
        lemma_mul_bound(c1 as int, y as int, B63 as int, B31 as int);
        lemma_mul_bound(c2 as int, z as int, B63 as int, B31 as int);
    }
    c0 * (x as i128) + c1 * (y as i128) + c2 * (z as i128)
}

/// One component of the transformed normal.
fn normal_part(c0: i128, c1: i128, c2: i128, n: &Vec3, det: i128) -> (r: i32)
    requires
        -B63 <= c0 <= B63,
        -B63 <= c1 <= B63,
        -B63 <= c2 <= B63,
        det != 0,
        -3 * B63 * B31 <= det <= 3 * B63 * B31,
    ensures
        r == normal_component((c0 as int, c1 as int, c2 as int), *n, det as int),
{
    let s = combine3(c0, c1, c2, n.x, n.y, n.z);
    proof {
        lemma_mul_bound(s as int, ONE as int, 3 * B63 * B31, ONE as int);
    }
    saturate_i32(floor_div_signed(s * (ONE as i128), det))
}

/// The normal transformed by the inverse-transpose of the model matrix's
/// upper-left 3x3 block; the identity stands in where that block is singular.
pub fn normal_matrix_apply(m: &Mat4, n: &Vec3) -> (r: Vec3)
    ensures
        r == transform_normal(*m, *n),
{
    let (a, b, c) = (m.row0.x, m.row0.y, m.row0.z);
    let (d, e, f) = (m.row1.x, m.row1.y, m.row1.z);
    let (g, h, i) = (m.row2.x, m.row2.y, m.row2.z);
    let c00 = minor2(e, i, f, h);
    let c01 = minor2(f, g, d, i);
    let c02 = minor2(d, h, e, g);
    let det = combine3(c00, c01, c02, a, b, c);
    if det == 0 {
        *n
    } else {
        let c10 = minor2(c, h, b, i);
        let c11 = minor2(a, i, c, g);
        let c12 = minor2(b, g, a, h);
        let c20 = minor2(b, f, c, e);
        let c21 = minor2(c, d, a, f);
        let c22 = minor2(a, e, b, d);
        Vec3 {
            x: normal_part(c00, c01, c02, n, det),
            y: normal_part(c10, c11, c12, n, det),
            z: normal_part(c20, c21, c22, n, det),
        }
    }
}

fn divide_by_w(a: i32, w: i32) -> (r: i32)
    requires
        w != 0,
    ensures
        r == perspective_divide(a, w),
{
    proof {
        lemma_mul_bound(a as int, ONE as int, B31 as int, ONE as int);
    }
    saturate_i32(floor_div_signed((a as i128) * (ONE as i128), w as i128))
}

/// The vertex transform stage. The result keeps the model-space attributes and
/// carries the screen position and transformed normal; a vertex whose clip `w`
/// is zero cannot be projected and yields `None`.
pub fn vertex_shader(vertex: &Vertex, uniforms: &Uniforms) -> (r: Option<Vertex>)
    ensures
        r == transformed_vertex(*vertex, *uniforms),
{
    let p = vertex.position;
    let model = uniforms.model_matrix.mul_vec(&Vec4::new(p.x, p.y, p.z, ONE));
    let view = uniforms.view_matrix.mul_vec(&model);
    let clip = uniforms.projection_matrix.mul_vec(&view);
    if clip.w == 0 {
        return None;
    }
    let ndc = Vec4::new(
        divide_by_w(clip.x, clip.w),
        divide_by_w(clip.y, clip.w),
        divide_by_w(clip.z, clip.w),
        ONE,
    );
    let s = uniforms.viewport_matrix.mul_vec(&ndc);
    let transformed_normal = normal_matrix_apply(&uniforms.model_matrix, &vertex.normal);
    Some(
        Vertex {
            position: vertex.position,
            normal: vertex.normal,
            tex_coords: vertex.tex_coords,
            color: vertex.color,
            transformed_position: Vec3::new(s.x, s.y, s.z),
            transformed_normal,
        },
    )
}

} // verus!
