//! The pipeline orchestrator: vertex transform, primitive assembly,
//! rasterization, shading and depth-tested writes, in that order.
use vstd::prelude::*;
use crate::color::{Color, hex_of};
use crate::fragment::Fragment;
use crate::framebuffer::{FrameView, Framebuffer, DEPTH_FAR, pixel_index, lemma_index_in_range, lemma_index_injective};
use crate::raster::{is_raster_of, triangle, pixel_covered, lemma_flat_depth, before};
use crate::transform::{transformed_vertex, vertex_shader};
use crate::uniforms::Uniforms;
use crate::vertex::Vertex;

verus! {

/// The triangle made of vertices `3t`, `3t + 1` and `3t + 2` after the transform
/// stage, or `None` when one of them cannot be projected.
pub open spec fn assembled(u: Uniforms, verts: Seq<Vertex>, t: int) -> Option<(Vertex, Vertex, Vertex)> {
    match (
        transformed_vertex(verts[3 * t], u),
        transformed_vertex(verts[3 * t + 1], u),
        transformed_vertex(verts[3 * t + 2], u),
    ) {
        (Some(a), Some(b), Some(c)) => Some((a, b, c)),
        _ => None,
    }
}

/// `parts` holds, for each complete triple of `verts` in order, the
/// rasterization of its triangle on a `width` by `height` screen (nothing for a
/// triple that cannot be projected). A trailing group of one or two vertices
/// forms no triangle.
pub open spec fn object_raster(
    u: Uniforms,
    verts: Seq<Vertex>,
    width: int,
    height: int,
    parts: Seq<Seq<Fragment>>,
) -> bool {
    &&& parts.len() == verts.len() / 3
    &&& forall|t: int|
        0 <= t < parts.len() ==> match #[trigger] assembled(u, verts, t) {
            Some((a, b, c)) => is_raster_of(parts[t], a, b, c, width, height),
            None => parts[t].len() == 0,
        }
}

/// Each fragment written in turn: the current colour becomes the fragment's
/// shaded colour, then a depth-tested point is written.
pub open spec fn draw_fragments(v: FrameView, frags: Seq<Fragment>, colors: Seq<Color>) -> FrameView
    decreases frags.len(),
{
    if frags.len() == 0 || colors.len() != frags.len() {
        v
    } else {
        let f = frags.last();
        draw_fragments(v, frags.drop_last(), colors.drop_last()).with_current(
            hex_of(colors.last()),
        ).point(f.x as int, f.y as int, f.depth)
    }
}

/// Renders one object: each vertex goes through the transform stage, complete
/// triples in order become triangles, each triangle is rasterized, each
/// fragment is shaded by `fragment_shader`, and the colour is written with a
/// depth test. Drawing several objects in turn without a clear composes them
/// by depth.
pub fn render_with_shader<F: Fn(&Fragment, &Uniforms) -> Color>(
    framebuffer: &mut Framebuffer,
    uniforms: &Uniforms,
    vertex_array: &Vec<Vertex>,
    fragment_shader: F,
)
    requires
        old(framebuffer)@.wf(),
        forall|f: Fragment| fragment_shader.requires((&f, uniforms)),
    ensures
        final(framebuffer)@.wf(),
        final(framebuffer)@.width == old(framebuffer)@.width,
        final(framebuffer)@.height == old(framebuffer)@.height,
        exists|parts: Seq<Seq<Fragment>>, colors: Seq<Color>|
            {
                &&& object_raster(
                    *uniforms,
                    vertex_array@,
                    old(framebuffer)@.width as int,
                    old(framebuffer)@.height as int,
                    parts,
                )
                &&& colors.len() == parts.flatten().len()
                &&& forall|i: int|
                    0 <= i < colors.len() ==> fragment_shader.ensures(
                        (&parts.flatten()[i], uniforms),
                        #[trigger] colors[i],
                    )
                &&& final(framebuffer)@ == draw_fragments(old(framebuffer)@, parts.flatten(), colors)
            },
{
    let n = vertex_array.len();
    let mut transformed: Vec<Option<Vertex>> = Vec::new();
    let mut i: usize = 0;
    while i < n
        invariant
            i <= n,
            n == vertex_array@.len(),
            transformed@.len() == i,
            forall|k: int| 0 <= k < i ==> transformed@[k] == transformed_vertex(vertex_array@[k], *uniforms),
        decreases n - i,
    {
        transformed.push(vertex_shader(&vertex_array[i], uniforms));
        i = i + 1;
    }
    let width = framebuffer.width();
    let height = framebuffer.height();
    let ghost start = framebuffer@;
    let ghost mut parts: Seq<Seq<Fragment>> = Seq::empty();
    let ghost mut colors: Seq<Color> = Seq::empty();
    let count = n / 3;
    let mut t: usize = 0;
    while t < count
        invariant
            t <= count,
            count == n / 3,
            n == vertex_array@.len(),
            transformed@.len() == n,
            forall|k: int| 0 <= k < n ==> transformed@[k] == transformed_vertex(vertex_array@[k], *uniforms),
            width == start.width,
            height == start.height,
            framebuffer@.wf(),
            framebuffer@.width == start.width,
            framebuffer@.height == start.height,
            parts.len() == t,
            forall|s: int|
                0 <= s < t ==> match #[trigger] assembled(*uniforms, vertex_array@, s) {
                    Some((a, b, c)) => is_raster_of(parts[s], a, b, c, width as int, height as int),
                    None => parts[s].len() == 0,
                },
            colors.len() == parts.flatten().len(),
            forall|k: int|
                0 <= k < colors.len() ==> fragment_shader.ensures(
                    (&parts.flatten()[k], uniforms),
                    #[trigger] colors[k],
                ),
            framebuffer@ == draw_fragments(start, parts.flatten(), colors),
            forall|f: Fragment| fragment_shader.requires((&f, uniforms)),
        decreases count - t,
    {
        let base = 3 * t;
        let tri: Vec<Fragment> = match (&transformed[base], &transformed[base + 1], &transformed[base + 2]) {
            (Some(a), Some(b), Some(c)) => triangle(a, b, c, width, height),
            _ => Vec::new(),
        };
        assert(match assembled(*uniforms, vertex_array@, t as int) {
            Some((a, b, c)) => is_raster_of(tri@, a, b, c, width as int, height as int),
            None => tri@.len() == 0,
        });
        let ghost before = parts.flatten();
        let m = tri.len();
        let mut k: usize = 0;
        while k < m
            invariant
                k <= m,
                m == tri@.len(),
                framebuffer@.wf(),
                framebuffer@.width == start.width,
                framebuffer@.height == start.height,
                colors.len() == before.len() + k,
                forall|j: int|
                    0 <= j < colors.len() ==> fragment_shader.ensures(
                        ((&(before + tri@.take(k as int))[j]), uniforms),
                        #[trigger] colors[j],
                    ),
                framebuffer@ == draw_fragments(start, before + tri@.take(k as int), colors),
                forall|f: Fragment| fragment_shader.requires((&f, uniforms)),
            decreases m - k,
        {
            let f = tri[k];
            let color = fragment_shader(&f, uniforms);
            framebuffer.set_current_color(color.to_hex());
            framebuffer.point(f.x, f.y, f.depth);
            proof {
                let old_seq = before + tri@.take(k as int);
                let new_seq = before + tri@.take(k + 1);
                assert(new_seq =~= old_seq.push(f));
                let old_colors = colors;
                colors = colors.push(color);
                assert(new_seq.drop_last() =~= old_seq);
                assert(colors.drop_last() =~= old_colors);
                assert forall|j: int|
                    0 <= j < colors.len() implies fragment_shader.ensures(
                        ((&new_seq[j]), uniforms),
                        #[trigger] colors[j],
                    ) by {
                    if j < old_colors.len() {
                        assert(new_seq[j] == old_seq[j]);
                        assert(colors[j] == old_colors[j]);
                    }
                }
            }
            k = k + 1;
        }
        proof {
            assert(tri@.take(m as int) =~= tri@);
            parts.lemma_flatten_push(tri@);
            parts = parts.push(tri@);
            assert forall|s: int|
                0 <= s < t + 1 implies match #[trigger] assembled(*uniforms, vertex_array@, s) {
                Some((a, b, c)) => is_raster_of(parts[s], a, b, c, width as int, height as int),
                None => parts[s].len() == 0,
            } by {
                if s < t {
                    assert(parts[s] == parts.drop_last()[s]);
                }
            }
        }
        t = t + 1;
    }
}

/// No two fragments share a pixel.
pub open spec fn distinct_pixels(frags: Seq<Fragment>) -> bool {
    forall|i: int, j: int|
        0 <= i < j < frags.len() ==> !(frags[i].x == frags[j].x && frags[i].y == frags[j].y)
}

/// What drawing fragments of distinct pixels leaves at one pixel: the colour
/// and depth of the fragment there when it is closer than what was stored,
/// and the old contents otherwise.
pub proof fn lemma_draw_pixel(v: FrameView, frags: Seq<Fragment>, colors: Seq<Color>, x: int, y: int)
    requires
        v.wf(),
        colors.len() == frags.len(),
        distinct_pixels(frags),
        v.in_bounds(x, y),
    ensures
        draw_fragments(v, frags, colors).wf(),
        draw_fragments(v, frags, colors).width == v.width,
        draw_fragments(v, frags, colors).height == v.height,
        forall|i: int|
            0 <= i < frags.len() && frags[i].x == x && frags[i].y == y ==> {
                let r = draw_fragments(v, frags, colors);
                if frags[i].depth < v.depth_at(x, y) {
                    r.color_at(x, y) == hex_of(colors[i]) && r.depth_at(x, y) == frags[i].depth
                } else {
                    r.color_at(x, y) == v.color_at(x, y) && r.depth_at(x, y) == v.depth_at(x, y)
                }
            },
        (forall|i: int| 0 <= i < frags.len() ==> !(frags[i].x == x && frags[i].y == y)) ==> {
            let r = draw_fragments(v, frags, colors);
            r.color_at(x, y) == v.color_at(x, y) && r.depth_at(x, y) == v.depth_at(x, y)
        },
    decreases frags.len(),
{
    if frags.len() > 0 {
        let pre = frags.drop_last();
        let pc = colors.drop_last();
        lemma_draw_pixel(v, pre, pc, x, y);
        let p = draw_fragments(v, pre, pc);
        let f = frags.last();
        let n = frags.len() - 1;
        let r = draw_fragments(v, frags, colors);
        assert(r == p.with_current(hex_of(colors.last())).point(f.x as int, f.y as int, f.depth));
        lemma_index_in_range(v.width, v.height, x, y);
        if p.in_bounds(f.x as int, f.y as int) {
            lemma_index_in_range(v.width, v.height, f.x as int, f.y as int);
        }
        if f.x == x && f.y == y {
            assert forall|i: int| 0 <= i < pre.len() implies !(pre[i].x == x && pre[i].y == y) by {
                assert(pre[i] == frags[i]);
            }
        } else {
            if p.in_bounds(f.x as int, f.y as int) && pixel_index(v.width, x, y) == pixel_index(
                v.width,
                f.x as int,
                f.y as int,
            ) {
                lemma_index_injective(v.width, x, y, f.x as int, f.y as int);
            }
            assert(r.color_at(x, y) == p.color_at(x, y) && r.depth_at(x, y) == p.depth_at(x, y));
        }
        assert forall|i: int|
            0 <= i < frags.len() && frags[i].x == x && frags[i].y == y implies {
                if frags[i].depth < v.depth_at(x, y) {
                    r.color_at(x, y) == hex_of(colors[i]) && r.depth_at(x, y) == frags[i].depth
                } else {
                    r.color_at(x, y) == v.color_at(x, y) && r.depth_at(x, y) == v.depth_at(x, y)
                }
            } by {
            if i < n {
                assert(pre[i] == frags[i]);
                assert(pc[i] == colors[i]);
            }
        }
        if forall|i: int| 0 <= i < frags.len() ==> !(frags[i].x == x && frags[i].y == y) {
            assert(!(frags[n].x == x && frags[n].y == y));
            assert forall|i: int| 0 <= i < pre.len() implies !(pre[i].x == x && pre[i].y == y) by {
                assert(pre[i] == frags[i]);
            }
        }
    }
}

/// Rendering one triangle whose vertices project to a common depth `z`, onto a
/// cleared buffer, with a shading function that always gives `color`: each
/// covered pixel ends with that colour at depth `z`, and every other pixel keeps
/// the background at the far depth.
pub proof fn lemma_solid_triangle_render(
    v: FrameView,
    u: Uniforms,
    verts: Seq<Vertex>,
    parts: Seq<Seq<Fragment>>,
    colors: Seq<Color>,
    color: Color,
    z: i32,
    px: int,
    py: int,
)
    requires
        v.wf(),
        v.colors == Seq::new(v.width * v.height, |i: int| v.background),
        v.depths == Seq::new(v.width * v.height, |i: int| DEPTH_FAR),
        verts.len() == 3,
        assembled(u, verts, 0) is Some,
        assembled(u, verts, 0).unwrap().0.transformed_position.z == z,
        assembled(u, verts, 0).unwrap().1.transformed_position.z == z,
        assembled(u, verts, 0).unwrap().2.transformed_position.z == z,
        z < DEPTH_FAR,
        object_raster(u, verts, v.width as int, v.height as int, parts),
        colors.len() == parts.flatten().len(),
        forall|i: int| 0 <= i < colors.len() ==> colors[i] == color,
        v.in_bounds(px, py),
    ensures
        ({
            let (a, b, c) = assembled(u, verts, 0).unwrap();
            let r = draw_fragments(v, parts.flatten(), colors);
            if pixel_covered(a, b, c, px, py) {
                r.color_at(px, py) == hex_of(color) && r.depth_at(px, py) == z
            } else {
                r.color_at(px, py) == v.background && r.depth_at(px, py) == DEPTH_FAR
            }
        }),
{
    let (a, b, c) = assembled(u, verts, 0).unwrap();
    assert(parts.len() == 1);
    assert(match assembled(u, verts, 0) {
        Some((a, b, c)) => is_raster_of(parts[0], a, b, c, v.width as int, v.height as int),
        None => parts[0].len() == 0,
    });
    parts.lemma_flatten_one_element();
    let frags = parts.flatten();
    assert(frags == parts[0]);
    assert(is_raster_of(frags, a, b, c, v.width as int, v.height as int));
    assert forall|i: int, j: int| 0 <= i < j < frags.len() implies !(frags[i].x == frags[j].x
        && frags[i].y == frags[j].y) by {
        assert(before(frags[i], frags[j]));
    }
    lemma_draw_pixel(v, frags, colors, px, py);
    lemma_index_in_range(v.width, v.height, px, py);
    if pixel_covered(a, b, c, px, py) {
        let i = choose|i: int| 0 <= i < frags.len() && frags[i].x == px && frags[i].y == py;
        lemma_flat_depth(a, b, c, px, py, z);
        assert(frags[i].depth == z);
    } else {
        assert forall|i: int| 0 <= i < frags.len() implies !(frags[i].x == px && frags[i].y == py) by {
            if frags[i].x == px && frags[i].y == py {
                assert(pixel_covered(a, b, c, frags[i].x as int, frags[i].y as int));
            }
        }
    }
}

} // verus!
