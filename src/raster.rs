//! Triangle rasterization: edge functions, the fill rule, and barycentric
//! interpolation of the vertex attributes at each covered pixel centre.
use vstd::prelude::*;
use crate::fixed::{ONE, HALF, clamp_i32, floor_div, saturate_i32, lemma_mul_bound};
use crate::linalg::Vec3;
use crate::vertex::Vertex;
use crate::fragment::Fragment;

verus! {

/// The lowest lighting intensity a fragment gets (0.1 in Q16.16), so that faces
/// turned away from the light are not pure black.
pub const AMBIENT: i32 = 6553;

/// Twice the signed area of the triangle `a, b, p`: positive on one side of the
/// directed line `a -> b`, negative on the other, zero on it.
pub open spec fn edge(a: (int, int), b: (int, int), p: (int, int)) -> int {
    (b.0 - a.0) * (p.1 - a.1) - (b.1 - a.1) * (p.0 - a.0)
}

/// The fill rule. A sample lying exactly on an edge belongs to the triangle only
/// when the directed edge `a -> b` goes down the screen, or runs horizontally
/// toward smaller x. Of the two directions of any non-degenerate edge exactly one
/// qualifies, so two triangles that share an edge never both take its samples.
pub open spec fn owns_edge(a: (int, int), b: (int, int)) -> bool {
    b.1 > a.1 || (b.1 == a.1 && b.0 < a.0)
}

/// `p` lies strictly on the inner side of `a -> b`, or on the edge itself when
/// the edge owns its samples.
pub open spec fn inside_edge(a: (int, int), b: (int, int), p: (int, int)) -> bool {
    edge(a, b, p) > 0 || (edge(a, b, p) == 0 && owns_edge(a, b))
}

/// Coverage for a triangle of positive orientation.
pub open spec fn inside_oriented(a: (int, int), b: (int, int), c: (int, int), p: (int, int)) -> bool {
    inside_edge(a, b, p) && inside_edge(b, c, p) && inside_edge(c, a, p)
}

/// The screen position of a transformed vertex.
pub open spec fn pos2(v: Vertex) -> (int, int) {
    (v.transformed_position.x as int, v.transformed_position.y as int)
}

/// The sample point of pixel `(px, py)`: its centre, in Q16.16.
pub open spec fn sample(px: int, py: int) -> (int, int) {
    (px * ONE + HALF, py * ONE + HALF)
}

/// The vertices in an order of non-negative orientation.
pub open spec fn oriented(v1: Vertex, v2: Vertex, v3: Vertex) -> (Vertex, Vertex, Vertex) {
    if edge(pos2(v1), pos2(v2), pos2(v3)) >= 0 {
        (v1, v2, v3)
    } else {
        (v1, v3, v2)
    }
}

/// Whether the triangle covers the point `p`. A triangle of zero area covers nothing.
pub open spec fn covers(v1: Vertex, v2: Vertex, v3: Vertex, p: (int, int)) -> bool {
    let (a, b, c) = oriented(v1, v2, v3);
    edge(pos2(a), pos2(b), pos2(c)) > 0 && inside_oriented(pos2(a), pos2(b), pos2(c), p)
}

/// Whether the triangle covers the centre of pixel `(px, py)`.
pub open spec fn pixel_covered(v1: Vertex, v2: Vertex, v3: Vertex, px: int, py: int) -> bool {
    covers(v1, v2, v3, sample(px, py))
}

/// A value interpolated with barycentric weights `w` over a total of `area`,
/// rounded down and saturated.
pub open spec fn bary(w: (int, int, int), area: int, v0: int, v1: int, v2: int) -> i32 {
    clamp_i32((w.0 * v0 + w.1 * v1 + w.2 * v2) / area) as i32
}

pub open spec fn bary3(w: (int, int, int), area: int, a: Vec3, b: Vec3, c: Vec3) -> Vec3 {
    Vec3 {
        x: bary(w, area, a.x as int, b.x as int, c.x as int),
        y: bary(w, area, a.y as int, b.y as int, c.y as int),
        z: bary(w, area, a.z as int, b.z as int, c.z as int),
    }
}

/// The lighting intensity of a normal: light falls along the viewing axis, so
/// the intensity is the normal's z, never below the ambient floor.
pub open spec fn light_intensity(n: Vec3) -> i32 {
    if n.z < AMBIENT {
        AMBIENT
    } else {
        n.z
    }
}

/// The fragment of the triangle at pixel `(px, py)`.
pub open spec fn fragment_at(v1: Vertex, v2: Vertex, v3: Vertex, px: int, py: int) -> Fragment {
    let (a, b, c) = oriented(v1, v2, v3);
    let (pa, pb, pc) = (pos2(a), pos2(b), pos2(c));
    let s = sample(px, py);
    let w = (edge(pb, pc, s), edge(pc, pa, s), edge(pa, pb, s));
    let area = edge(pa, pb, pc);
    let n = bary3(w, area, a.transformed_normal, b.transformed_normal, c.transformed_normal);
    Fragment {
        x: px as usize,
        y: py as usize,
        depth: bary(
            w,
            area,
            a.transformed_position.z as int,
            b.transformed_position.z as int,
            c.transformed_position.z as int,
        ),
        vertex_position: bary3(w, area, a.position, b.position, c.position),
        normal: n,
        intensity: light_intensity(n),
    }
}

/// Fragment `f` comes before fragment `g` in row-major order.
pub open spec fn before(f: Fragment, g: Fragment) -> bool {
    f.y < g.y || (f.y == g.y && f.x < g.x)
}

/// `frags` is the rasterization of the triangle on a `width` by `height` screen:
/// one fragment for each covered pixel of the screen and for no other, in
/// row-major order, each carrying the attributes interpolated at that pixel.
pub open spec fn is_raster_of(
    frags: Seq<Fragment>,
    v1: Vertex,
    v2: Vertex,
    v3: Vertex,
    width: int,
    height: int,
) -> bool {
    &&& forall|i: int|
        0 <= i < frags.len() ==> {
            &&& frags[i].x < width
            &&& frags[i].y < height
            &&& pixel_covered(v1, v2, v3, frags[i].x as int, frags[i].y as int)
            &&& frags[i] == fragment_at(v1, v2, v3, frags[i].x as int, frags[i].y as int)
        }
    &&& forall|i: int, j: int| 0 <= i < j < frags.len() ==> before(frags[i], frags[j])
    &&& forall|px: int, py: int|
        0 <= px < width && 0 <= py < height && pixel_covered(v1, v2, v3, px, py) ==> exists|i: int|
            0 <= i < frags.len() && frags[i].x == px && frags[i].y == py
}

/// The barycentric identities: the three edge values at `p` sum to twice the
/// area, and weight the vertex coordinates to `p` scaled by that area.
proof fn lemma_bary_identities(a: (int, int), b: (int, int), c: (int, int), p: (int, int))
    ensures
        edge(b, c, p) + edge(c, a, p) + edge(a, b, p) == edge(a, b, c),
        edge(b, c, p) * a.0 + edge(c, a, p) * b.0 + edge(a, b, p) * c.0 == edge(a, b, c) * p.0,
        edge(b, c, p) * a.1 + edge(c, a, p) * b.1 + edge(a, b, p) * c.1 == edge(a, b, c) * p.1,
{
    lemma_bary_axis(a.0, a.1, b.0, b.1, c.0, c.1, p.0, p.1);
    lemma_bary_axis(a.1, a.0, b.1, b.0, c.1, c.0, p.1, p.0);
    let (w0, w1, w2, ar) = (edge(b, c, p), edge(c, a, p), edge(a, b, p), edge(a, b, c));
    assert((-w0) * a.1 + (-w1) * b.1 + (-w2) * c.1 == (-ar) * p.1);
    assert(w0 * a.1 + w1 * b.1 + w2 * c.1 == ar * p.1) by (nonlinear_arith)
        requires
            (-w0) * a.1 + (-w1) * b.1 + (-w2) * c.1 == (-ar) * p.1,
    ;
}

/// The barycentric identities along one axis, with the edge values written out.
proof fn lemma_bary_axis(ax: int, ay: int, bx: int, by: int, cx: int, cy: int, px: int, py: int)
    ensures
        ((cx - bx) * (py - by) - (cy - by) * (px - bx)) + ((ax - cx) * (py - cy) - (ay - cy) * (px
            - cx)) + ((bx - ax) * (py - ay) - (by - ay) * (px - ax)) == (bx - ax) * (cy - ay) - (by
            - ay) * (cx - ax),
        ((cx - bx) * (py - by) - (cy - by) * (px - bx)) * ax + ((ax - cx) * (py - cy) - (ay - cy)
            * (px - cx)) * bx + ((bx - ax) * (py - ay) - (by - ay) * (px - ax)) * cx == ((bx - ax)
            * (cy - ay) - (by - ay) * (cx - ax)) * px,
{
    let (u, v, s, t, x, y) = (bx - ax, by - ay, cx - ax, cy - ay, px - ax, py - ay);
    let w0 = (cx - bx) * (py - by) - (cy - by) * (px - bx);
    let w1 = (ax - cx) * (py - cy) - (ay - cy) * (px - cx);
    let w2 = (bx - ax) * (py - ay) - (by - ay) * (px - ax);
    let area = (bx - ax) * (cy - ay) - (by - ay) * (cx - ax);
    assert((s - u) * (y - v) == s * y - s * v - u * y + u * v) by (nonlinear_arith);
    assert((t - v) * (x - u) == t * x - t * u - v * x + v * u) by (nonlinear_arith);
    assert(w0 == (s - u) * (y - v) - (t - v) * (x - u));
    assert((0 - s) * (y - t) == s * t - s * y) by (nonlinear_arith);
    assert((0 - t) * (x - s) == t * s - t * x) by (nonlinear_arith);
    assert(w1 == (0 - s) * (y - t) - (0 - t) * (x - s));
    assert(s * t == t * s) by (nonlinear_arith);
    assert(u * v == v * u) by (nonlinear_arith);
    assert(t * u == u * t) by (nonlinear_arith);
    assert(s * v == v * s) by (nonlinear_arith);
    assert(w1 == t * x - s * y);
    assert(w2 == u * y - v * x);
    assert(area == u * t - v * s);
    assert(w0 + w1 + w2 == area);
    assert(w1 * u + w2 * s == area * x) by (nonlinear_arith)
        requires
            w1 == t * x - s * y,
            w2 == u * y - v * x,
            area == u * t - v * s,
    ;
    assert(w0 * ax + w1 * bx + w2 * cx == (w0 + w1 + w2) * ax + w1 * u + w2 * s) by (nonlinear_arith)
        requires
            u == bx - ax,
            s == cx - ax,
    ;
    assert(area * px == area * ax + area * x) by (nonlinear_arith)
        requires
            x == px - ax,
    ;
}

/// A convex combination with non-negative weights lies between the smallest and
/// the largest of the values.
proof fn lemma_convex_between(w0: int, w1: int, w2: int, v0: int, v1: int, v2: int, t: int, lo: int, hi: int)
    requires
        w0 >= 0,
        w1 >= 0,
        w2 >= 0,
        w0 + w1 + w2 > 0,
        w0 * v0 + w1 * v1 + w2 * v2 == (w0 + w1 + w2) * t,
        lo <= v0 <= hi,
        lo <= v1 <= hi,
        lo <= v2 <= hi,
    ensures
        lo <= t <= hi,
{
    assert(w0 * lo + w1 * lo + w2 * lo <= w0 * v0 + w1 * v1 + w2 * v2) by (nonlinear_arith)
        requires
            w0 >= 0,
            w1 >= 0,
            w2 >= 0,
            lo <= v0,
            lo <= v1,
            lo <= v2,
    ;
    assert(w0 * v0 + w1 * v1 + w2 * v2 <= w0 * hi + w1 * hi + w2 * hi) by (nonlinear_arith)
        requires
            w0 >= 0,
            w1 >= 0,
            w2 >= 0,
            v0 <= hi,
            v1 <= hi,
            v2 <= hi,
    ;
    assert(w0 * lo + w1 * lo + w2 * lo == (w0 + w1 + w2) * lo) by (nonlinear_arith);
    assert(w0 * hi + w1 * hi + w2 * hi == (w0 + w1 + w2) * hi) by (nonlinear_arith);
    assert(lo <= t <= hi) by (nonlinear_arith)
        requires
            w0 + w1 + w2 > 0,
            (w0 + w1 + w2) * lo <= (w0 + w1 + w2) * t,
            (w0 + w1 + w2) * t <= (w0 + w1 + w2) * hi,
    ;
}

pub open spec fn min3(a: int, b: int, c: int) -> int {
    if a <= b && a <= c {
        a
    } else if b <= c {
        b
    } else {
        c
    }
}

pub open spec fn max3(a: int, b: int, c: int) -> int {
    if a >= b && a >= c {
        a
    } else if b >= c {
        b
    } else {
        c
    }
}

/// A point covered by a triangle lies in the triangle's bounding box.
pub proof fn lemma_covered_in_box(v1: Vertex, v2: Vertex, v3: Vertex, p: (int, int))
    requires
        covers(v1, v2, v3, p),
    ensures
        min3(pos2(v1).0, pos2(v2).0, pos2(v3).0) <= p.0 <= max3(pos2(v1).0, pos2(v2).0, pos2(v3).0),
        min3(pos2(v1).1, pos2(v2).1, pos2(v3).1) <= p.1 <= max3(pos2(v1).1, pos2(v2).1, pos2(v3).1),
{
    let (a, b, c) = oriented(v1, v2, v3);
    let (pa, pb, pc) = (pos2(a), pos2(b), pos2(c));
    lemma_bary_identities(pa, pb, pc, p);
    let (w0, w1, w2) = (edge(pb, pc, p), edge(pc, pa, p), edge(pa, pb, p));
    let lx = min3(pos2(v1).0, pos2(v2).0, pos2(v3).0);
    let hx = max3(pos2(v1).0, pos2(v2).0, pos2(v3).0);
    let ly = min3(pos2(v1).1, pos2(v2).1, pos2(v3).1);
    let hy = max3(pos2(v1).1, pos2(v2).1, pos2(v3).1);
    lemma_convex_between(w0, w1, w2, pa.0, pb.0, pc.0, p.0, lx, hx);
    lemma_convex_between(w0, w1, w2, pa.1, pb.1, pc.1, p.1, ly, hy);
}

/// Reversing the last two vertices negates the orientation.
proof fn lemma_edge_swap(a: (int, int), b: (int, int), c: (int, int))
    ensures
        edge(a, c, b) == -edge(a, b, c),
{
    let (u, v, s, t) = (b.0 - a.0, b.1 - a.1, c.0 - a.0, c.1 - a.1);
    assert(s * v - t * u == -(u * t - v * s)) by (nonlinear_arith);
}

/// `t * k <= n` bounds `t` by the floor of `n / k`, and `n < t * k + k` bounds it from below.
proof fn lemma_floor_bounds(n: int, t: int, k: int)
    requires
        k > 0,
    ensures
        t * k <= n ==> t <= n / k,
        n <= t * k ==> n / k <= t,
{
    vstd::arithmetic::div_mod::lemma_fundamental_div_mod(n, k);
    let q = n / k;
    let r = n % k;
    if t * k <= n {
        assert(t <= q) by (nonlinear_arith)
            requires
                t * k <= n,
                n == k * q + r,
                0 <= r < k,
                k > 0,
        ;
    }
    if n <= t * k {
        assert(q <= t) by (nonlinear_arith)
            requires
                n <= t * k,
                n == k * q + r,
                0 <= r < k,
                k > 0,
        ;
    }
}

/// Fragment `(qx, qy)` occurs in `frags`.
pub open spec fn found(frags: Seq<Fragment>, qx: int, qy: int) -> bool {
    exists|i: int| 0 <= i < frags.len() && frags[i].x == qx && frags[i].y == qy
}

proof fn lemma_found_push(frags: Seq<Fragment>, f: Fragment, qx: int, qy: int)
    requires
        found(frags, qx, qy) || (f.x == qx && f.y == qy),
    ensures
        found(frags.push(f), qx, qy),
{
    let s = frags.push(f);
    if found(frags, qx, qy) {
        let i = choose|i: int| 0 <= i < frags.len() && frags[i].x == qx && frags[i].y == qy;
        assert(s[i] == frags[i]);
    } else {
        assert(s[frags.len() as int] == f);
    }
}

const B33: i128 = 0x2_0000_0000;

const B69: i128 = 0x20_0000_0000_0000_0000;

/// The edge function on machine integers.
fn edge_value(ax: i128, ay: i128, bx: i128, by: i128, px: i128, py: i128) -> (e: i128)
    requires
        -B33 <= ax <= B33,
        -B33 <= ay <= B33,
        -B33 <= bx <= B33,
        -B33 <= by <= B33,
        -B33 <= px <= B33,
        -B33 <= py <= B33,
    ensures
        e == edge((ax as int, ay as int), (bx as int, by as int), (px as int, py as int)),
        -B69 <= e <= B69,
{
    proof {
        lemma_mul_bound(bx - ax, py - ay, 0x4_0000_0000, 0x4_0000_0000);
        lemma_mul_bound(by - ay, px - ax, 0x4_0000_0000, 0x4_0000_0000);
    }
    (bx - ax) * (py - ay) - (by - ay) * (px - ax)
}

fn owns(ax: i128, ay: i128, bx: i128, by: i128) -> (r: bool)
    ensures
        r == owns_edge((ax as int, ay as int), (bx as int, by as int)),
{
    by > ay || (by == ay && bx < ax)
}

/// Barycentric interpolation of one attribute.
fn interp(w0: i128, w1: i128, w2: i128, area: i128, v0: i32, v1: i32, v2: i32) -> (r: i32)
    requires
        -B69 <= w0 <= B69,
        -B69 <= w1 <= B69,
        -B69 <= w2 <= B69,
        area > 0,
    ensures
        r == bary((w0 as int, w1 as int, w2 as int), area as int, v0 as int, v1 as int, v2 as int),
{
    proof {
        lemma_mul_bound(w0 as int, v0 as int, B69 as int, 0x8000_0000);
        lemma_mul_bound(w1 as int, v1 as int, B69 as int, 0x8000_0000);
        lemma_mul_bound(w2 as int, v2 as int, B69 as int, 0x8000_0000);
    }
    let sum = w0 * (v0 as i128) + w1 * (v1 as i128) + w2 * (v2 as i128);
    saturate_i32(floor_div(sum, area))
}

fn interp3(w0: i128, w1: i128, w2: i128, area: i128, a: &Vec3, b: &Vec3, c: &Vec3) -> (r: Vec3)
    requires
        -B69 <= w0 <= B69,
        -B69 <= w1 <= B69,
        -B69 <= w2 <= B69,
        area > 0,
    ensures
        r == bary3((w0 as int, w1 as int, w2 as int), area as int, *a, *b, *c),
{
    Vec3 {
        x: interp(w0, w1, w2, area, a.x, b.x, c.x),
        y: interp(w0, w1, w2, area, a.y, b.y, c.y),
        z: interp(w0, w1, w2, area, a.z, b.z, c.z),
    }
}

fn min3_i32(a: i32, b: i32, c: i32) -> (r: i32)
    ensures
        r == min3(a as int, b as int, c as int),
{
    if a <= b && a <= c {
        a
    } else if b <= c {
        b
    } else {
        c
    }
}

fn max3_i32(a: i32, b: i32, c: i32) -> (r: i32)
    ensures
        r == max3(a as int, b as int, c as int),
{
    if a >= b && a >= c {
        a
    } else if b >= c {
        b
    } else {
        c
    }
}

/// The first and last pixel index along one axis whose centre can lie between
/// `lo` and `hi`, clipped to `[0, size)`.
fn pixel_span(lo: i32, hi: i32, size: usize) -> (r: (i128, i128))
    ensures
        0 <= r.0,
        r.1 < size,
        r.1 < 0x8000,
        forall|q: int|
            #![trigger q * ONE]
            0 <= q < size && lo <= q * ONE + HALF <= hi ==> r.0 <= q <= r.1,
{
    let first = floor_div(lo as i128 - HALF as i128, ONE as i128);
    let last = floor_div(hi as i128 - HALF as i128, ONE as i128);
    let first = if first < 0 {
        0
    } else {
        first
    };
    let cap: i128 = if size > 0x8000 {
        0x7fff
    } else {
        size as i128 - 1
    };
    let last = if last > cap {
        cap
    } else {
        last
    };
    proof {
        assert forall|q: int|
            #![trigger q * ONE]
            0 <= q < size && lo <= q * ONE + HALF <= hi implies first <= q <= last by {
            lemma_floor_bounds(lo - HALF, q, ONE as int);
            lemma_floor_bounds(hi - HALF, q, ONE as int);
            assert(q * ONE == q * (ONE as int));
            if size > 0x8000 {
                assert(q <= (hi - HALF) / (ONE as int));
                assert((hi - HALF) / (ONE as int) <= 0x7fff) by {
                    lemma_floor_bounds(hi - HALF, 0x7fff, ONE as int);
                }
            }
        }
    }
    (first, last)
}

/// The fragment of an oriented triangle at one pixel, if the pixel is covered.
fn shade_pixel(a: &Vertex, b: &Vertex, c: &Vertex, area: i128, px: i128, py: i128) -> (r: Option<
    Fragment,
>)
    requires
        area > 0,
        area == edge(pos2(*a), pos2(*b), pos2(*c)),
        0 <= px < 0x8000,
        0 <= py < 0x8000,
    ensures
        r.is_some() == (area > 0 && inside_oriented(pos2(*a), pos2(*b), pos2(*c), sample(px as int, py as int))),
        r.is_some() ==> r.unwrap() == ({
            let (pa, pb, pc) = (pos2(*a), pos2(*b), pos2(*c));
            let s = sample(px as int, py as int);
            let w = (edge(pb, pc, s), edge(pc, pa, s), edge(pa, pb, s));
            let n = bary3(w, area as int, a.transformed_normal, b.transformed_normal, c.transformed_normal);
            Fragment {
                x: px as usize,
                y: py as usize,
                depth: bary(
                    w,
                    area as int,
                    a.transformed_position.z as int,
                    b.transformed_position.z as int,
                    c.transformed_position.z as int,
                ),
                vertex_position: bary3(w, area as int, a.position, b.position, c.position),
                normal: n,
                intensity: light_intensity(n),
            }
        }),
{
    let (ax, ay) = (a.transformed_position.x as i128, a.transformed_position.y as i128);
    let (bx, by) = (b.transformed_position.x as i128, b.transformed_position.y as i128);
    let (cx, cy) = (c.transformed_position.x as i128, c.transformed_position.y as i128);
    let sx = px * (ONE as i128) + (HALF as i128);
    let sy = py * (ONE as i128) + (HALF as i128);
    let w0 = edge_value(bx, by, cx, cy, sx, sy);
    let w1 = edge_value(cx, cy, ax, ay, sx, sy);
    let w2 = edge_value(ax, ay, bx, by, sx, sy);
    let in0 = w0 > 0 || (w0 == 0 && owns(bx, by, cx, cy));
    let in1 = w1 > 0 || (w1 == 0 && owns(cx, cy, ax, ay));
    let in2 = w2 > 0 || (w2 == 0 && owns(ax, ay, bx, by));
    if !(in0 && in1 && in2) {
        return None;
    }
    let depth = interp(
        w0,
        w1,
        w2,
        area,
        a.transformed_position.z,
        b.transformed_position.z,
        c.transformed_position.z,
    );
    let vertex_position = interp3(w0, w1, w2, area, &a.position, &b.position, &c.position);
    let normal = interp3(
        w0,
        w1,
        w2,
        area,
        &a.transformed_normal,
        &b.transformed_normal,
        &c.transformed_normal,
    );
    let intensity = if normal.z < AMBIENT {
        AMBIENT
    } else {
        normal.z
    };
    Some(Fragment { x: px as usize, y: py as usize, depth, vertex_position, normal, intensity })
}

/// Rasterizes a triangle of transformed vertices on a `width` by `height`
/// screen. The result holds one fragment per covered pixel, in row-major
/// order, with depth, model-space position and normal interpolated by the
/// barycentric weights of the pixel centre. A triangle of zero area yields
/// no fragment.
pub fn triangle(v1: &Vertex, v2: &Vertex, v3: &Vertex, width: usize, height: usize) -> (frags: Vec<
    Fragment,
>)
    ensures
        is_raster_of(frags@, *v1, *v2, *v3, width as int, height as int),
        edge(pos2(*v1), pos2(*v2), pos2(*v3)) == 0 ==> frags@.len() == 0,
{
    let mut frags: Vec<Fragment> = Vec::new();
    let area0 = edge_value(
        v1.transformed_position.x as i128,
        v1.transformed_position.y as i128,
        v2.transformed_position.x as i128,
        v2.transformed_position.y as i128,
        v3.transformed_position.x as i128,
        v3.transformed_position.y as i128,
    );
    if area0 == 0 {
        proof {
            assert forall|px: int, py: int| !pixel_covered(*v1, *v2, *v3, px, py) by {
                lemma_degenerate_covers_nothing(*v1, *v2, *v3, sample(px, py));
            }
        }
        return frags;
    }
    let (a, b, c) = if area0 > 0 {
        (*v1, *v2, *v3)
    } else {
        (*v1, *v3, *v2)
    };
    proof {
        lemma_edge_swap(pos2(*v1), pos2(*v2), pos2(*v3));
    }
    let area = if area0 > 0 {
        area0
    } else {
        -area0
    };
    let ghost tri = oriented(*v1, *v2, *v3);
    assert(tri == (a, b, c));
    let xs = pixel_span(
        min3_i32(a.transformed_position.x, b.transformed_position.x, c.transformed_position.x),
        max3_i32(a.transformed_position.x, b.transformed_position.x, c.transformed_position.x),
        width,
    );
    let ys = pixel_span(
        min3_i32(a.transformed_position.y, b.transformed_position.y, c.transformed_position.y),
        max3_i32(a.transformed_position.y, b.transformed_position.y, c.transformed_position.y),
        height,
    );
    let (x_lo, x_hi) = xs;
    let (y_lo, y_hi) = ys;
    proof {
        assert forall|qx: int, qy: int|
            0 <= qx < width && 0 <= qy < height && #[trigger] pixel_covered(
                *v1,
                *v2,
                *v3,
                qx,
                qy,
            ) implies x_lo <= qx <= x_hi && y_lo <= qy <= y_hi by {
            lemma_covered_in_box(*v1, *v2, *v3, sample(qx, qy));
            assert(qx * ONE == qx * (ONE as int));
            assert(qy * ONE == qy * (ONE as int));
        }
    }
    let mut py: i128 = y_lo;
    proof {
        assert forall|qx: int, qy: int|
            0 <= qx < width && 0 <= qy < py && qy < height && #[trigger] pixel_covered(*v1, *v2, *v3, qx, qy)
                implies found(frags@, qx, qy) by {
            assert(y_lo <= qy);
        }
    }
    while py <= y_hi
        invariant
            y_lo <= py,
            0 <= y_lo,
            0 <= x_lo,
            y_hi < height,
            y_hi < 0x8000,
            x_hi < width,
            x_hi < 0x8000,
            area > 0,
            area == edge(pos2(a), pos2(b), pos2(c)),
            tri == (a, b, c),
            tri == oriented(*v1, *v2, *v3),
            forall|qx: int, qy: int|
                0 <= qx < width && 0 <= qy < height && #[trigger] pixel_covered(
                    *v1,
                    *v2,
                    *v3,
                    qx,
                    qy,
                ) ==> x_lo <= qx <= x_hi && y_lo <= qy <= y_hi,
            forall|i: int|
                0 <= i < frags@.len() ==> {
                    &&& frags@[i].x < width
                    &&& frags@[i].y < height
                    &&& frags@[i].y < py
                    &&& pixel_covered(*v1, *v2, *v3, frags@[i].x as int, frags@[i].y as int)
                    &&& frags@[i] == fragment_at(
                        *v1,
                        *v2,
                        *v3,
                        frags@[i].x as int,
                        frags@[i].y as int,
                    )
                },
            forall|i: int, j: int| 0 <= i < j < frags@.len() ==> before(frags@[i], frags@[j]),
            forall|qx: int, qy: int|
                0 <= qx < width && 0 <= qy < py && qy < height && #[trigger] pixel_covered(*v1, *v2, *v3, qx, qy)
                    ==> found(frags@, qx, qy),
        decreases y_hi + 1 - py,
    {
        let mut px: i128 = x_lo;
        while px <= x_hi
            invariant
                x_lo <= px,
                y_lo <= py <= y_hi,
                0 <= y_lo,
                0 <= x_lo,
                y_hi < height,
                y_hi < 0x8000,
                x_hi < width,
                x_hi < 0x8000,
                area > 0,
                area == edge(pos2(a), pos2(b), pos2(c)),
                tri == (a, b, c),
                tri == oriented(*v1, *v2, *v3),
                forall|qx: int, qy: int|
                    0 <= qx < width && 0 <= qy < height && #[trigger] pixel_covered(
                        *v1,
                        *v2,
                        *v3,
                        qx,
                        qy,
                    ) ==> x_lo <= qx <= x_hi && y_lo <= qy <= y_hi,
                forall|i: int|
                    0 <= i < frags@.len() ==> {
                        &&& frags@[i].x < width
                        &&& frags@[i].y < height
                        &&& (frags@[i].y < py || (frags@[i].y == py && frags@[i].x < px))
                        &&& pixel_covered(*v1, *v2, *v3, frags@[i].x as int, frags@[i].y as int)
                        &&& frags@[i] == fragment_at(
                            *v1,
                            *v2,
                            *v3,
                            frags@[i].x as int,
                            frags@[i].y as int,
                        )
                    },
                forall|i: int, j: int| 0 <= i < j < frags@.len() ==> before(frags@[i], frags@[j]),
                forall|qx: int, qy: int|
                    0 <= qx < width && 0 <= qy < height && (qy < py || (qy == py && qx < px))
                        && #[trigger] pixel_covered(*v1, *v2, *v3, qx, qy) ==> found(frags@, qx, qy),
            decreases x_hi + 1 - px,
        {
            let r = shade_pixel(&a, &b, &c, area, px, py);
            let ghost old_frags = frags@;
            match r {
                Some(f) => {
                    assert(pixel_covered(*v1, *v2, *v3, px as int, py as int));
                    frags.push(f);
                    proof {
                        assert(frags@ == old_frags.push(f));
                        assert forall|qx: int, qy: int|
                            0 <= qx < width && 0 <= qy < height && (qy < py || (qy == py && qx < px
                                + 1)) && #[trigger] pixel_covered(
                                *v1,
                                *v2,
                                *v3,
                                qx,
                                qy,
                            ) implies found(frags@, qx, qy) by {
                            lemma_found_push(old_frags, f, qx, qy);
                        }
                        assert forall|i: int|
                            0 <= i < frags@.len() implies (frags@[i].y < py || (frags@[i].y == py
                                && frags@[i].x < px + 1)) by {
                            if i < old_frags.len() {
                                assert(frags@[i] == old_frags[i]);
                            }
                        }
                    }
                },
                None => {
                    assert(!pixel_covered(*v1, *v2, *v3, px as int, py as int));
                },
            }
            px = px + 1;
        }
        py = py + 1;
    }
    proof {
        assert forall|qx: int, qy: int|
            0 <= qx < width && 0 <= qy < height && #[trigger] pixel_covered(*v1, *v2, *v3, qx, qy)
                implies found(frags@, qx, qy) by {
            assert(qy <= y_hi);
        }
    }
    frags
}

/// A degenerate triangle (its three vertices on one line, two of them equal
/// included) covers no point.
pub proof fn lemma_degenerate_covers_nothing(v1: Vertex, v2: Vertex, v3: Vertex, p: (int, int))
    requires
        edge(pos2(v1), pos2(v2), pos2(v3)) == 0,
    ensures
        !covers(v1, v2, v3, p),
{
    lemma_edge_swap(pos2(v1), pos2(v2), pos2(v3));
}

/// Reversing a directed edge negates its edge function.
proof fn lemma_edge_reverse(a: (int, int), b: (int, int), p: (int, int))
    ensures
        edge(b, a, p) == -edge(a, b, p),
{
    let (u, v, x, y) = (b.0 - a.0, b.1 - a.1, p.0 - a.0, p.1 - a.1);
    assert((-u) * (y - v) - (-v) * (x - u) == -(u * y - v * x)) by (nonlinear_arith);
}

/// Two triangles lying on opposite sides of their shared edge `a-b` never both
/// cover a point, and a point on that edge that lies strictly inside the other
/// edges of both is covered by exactly one of them: adjacent triangles leave
/// no seam and shade no sample twice.
pub proof fn lemma_shared_edge(a: Vertex, b: Vertex, c: Vertex, d: Vertex, p: (int, int))
    requires
        edge(pos2(a), pos2(b), pos2(c)) > 0,
        edge(pos2(b), pos2(a), pos2(d)) > 0,
    ensures
        !(covers(a, b, c, p) && covers(b, a, d, p)),
        edge(pos2(a), pos2(b), p) == 0 && edge(pos2(b), pos2(c), p) > 0 && edge(pos2(c), pos2(a), p)
            > 0 && edge(pos2(a), pos2(d), p) > 0 && edge(pos2(d), pos2(b), p) > 0 ==> (covers(a, b, c, p)
            || covers(b, a, d, p)),
{
    lemma_edge_reverse(pos2(a), pos2(b), p);
    lemma_edge_reverse(pos2(a), pos2(b), pos2(c));
    if pos2(a) == pos2(b) {
        assert(edge(pos2(a), pos2(b), pos2(c)) == 0);
    }
}

/// The edge function spelled out over coordinates, for concrete triangles.
proof fn lemma_edge_of(a: (int, int), b: (int, int), p: (int, int), u: int, v: int, ax: int, ay: int)
    requires
        a == (ax, ay),
        b.0 - a.0 == u,
        b.1 - a.1 == v,
    ensures
        edge(a, b, p) == u * (p.1 - ay) - v * (p.0 - ax),
{
}

/// The triangle `(0, 0), (4, 0), (0, 4)` covers exactly the pixels with
/// `x, y >= 0` and `x + y <= 3`: its hypotenuse owns the centres lying on it.
pub proof fn lemma_right_triangle_pixels(a: Vertex, b: Vertex, c: Vertex, px: int, py: int)
    requires
        pos2(a) == (0int, 0int),
        pos2(b) == (262144int, 0int),
        pos2(c) == (0int, 262144int),
    ensures
        pixel_covered(a, b, c, px, py) <==> (0 <= px && 0 <= py && px + py <= 3),
{
    let s = sample(px, py);
    let (sx, sy) = (px * 65536 + 32768, py * 65536 + 32768);
    assert(s == (sx, sy));
    let (pa, pb, pc) = (pos2(a), pos2(b), pos2(c));
    lemma_edge_of(pa, pb, pc, 262144, 0, 0, 0);
    assert(262144 * (262144 - 0) - 0 * (0 - 0) == 68719476736int) by (nonlinear_arith);
    lemma_edge_of(pa, pb, s, 262144, 0, 0, 0);
    assert(262144 * (sy - 0) - 0 * (sx - 0) == 262144 * sy) by (nonlinear_arith);
    lemma_edge_of(pb, pc, s, -262144, 262144, 262144, 0);
    assert(-262144 * (sy - 0) - 262144 * (sx - 262144) == 262144 * (262144 - sx - sy)) by (nonlinear_arith);
    lemma_edge_of(pc, pa, s, 0, -262144, 0, 262144);
    assert(0 * (sy - 262144) - (-262144) * (sx - 0) == 262144 * sx) by (nonlinear_arith);
}

/// The triangle `(4, 0), (0, 4), (4, 4)` covers exactly the pixels with
/// `x, y <= 3` and `x + y >= 4`: the shared hypotenuse's centres are not its own.
pub proof fn lemma_upper_triangle_pixels(b: Vertex, c: Vertex, d: Vertex, px: int, py: int)
    requires
        pos2(b) == (262144int, 0int),
        pos2(c) == (0int, 262144int),
        pos2(d) == (262144int, 262144int),
    ensures
        pixel_covered(b, c, d, px, py) <==> (px <= 3 && py <= 3 && px + py >= 4),
{
    let s = sample(px, py);
    let (sx, sy) = (px * 65536 + 32768, py * 65536 + 32768);
    assert(s == (sx, sy));
    let (pb, pc, pd) = (pos2(b), pos2(c), pos2(d));
    lemma_edge_of(pb, pc, pd, -262144, 262144, 262144, 0);
    assert(-262144 * (262144 - 0) - 262144 * (262144 - 262144) == -68719476736int) by (nonlinear_arith);
    lemma_edge_of(pb, pd, pc, 0, 262144, 262144, 0);
    assert(0 * (262144 - 0) - 262144 * (0 - 262144) == 68719476736int) by (nonlinear_arith);
    lemma_edge_of(pb, pd, s, 0, 262144, 262144, 0);
    assert(0 * (sy - 0) - 262144 * (sx - 262144) == 262144 * (262144 - sx)) by (nonlinear_arith);
    lemma_edge_of(pd, pc, s, -262144, 0, 262144, 262144);
    assert(-262144 * (sy - 262144) - 0 * (sx - 262144) == 262144 * (262144 - sy)) by (nonlinear_arith);
    lemma_edge_of(pc, pb, s, 262144, -262144, 0, 262144);
    assert(262144 * (sy - 262144) - (-262144) * (sx - 0) == 262144 * (sx + sy - 262144)) by (nonlinear_arith);
}

/// The triangles `(0, 0), (4, 0), (0, 4)` and `(4, 0), (0, 4), (4, 4)` together
/// cover each pixel of the 4 by 4 square exactly once, and nothing else.
pub proof fn lemma_square_tiling(a: Vertex, b: Vertex, c: Vertex, d: Vertex, px: int, py: int)
    requires
        pos2(a) == (0int, 0int),
        pos2(b) == (262144int, 0int),
        pos2(c) == (0int, 262144int),
        pos2(d) == (262144int, 262144int),
    ensures
        !(pixel_covered(a, b, c, px, py) && pixel_covered(b, c, d, px, py)),
        (pixel_covered(a, b, c, px, py) || pixel_covered(b, c, d, px, py)) <==> (0 <= px < 4 && 0
            <= py < 4),
{
    lemma_right_triangle_pixels(a, b, c, px, py);
    lemma_upper_triangle_pixels(b, c, d, px, py);
}

/// When the three vertices share one depth, every covered pixel's fragment
/// carries exactly that depth.
pub proof fn lemma_flat_depth(v1: Vertex, v2: Vertex, v3: Vertex, px: int, py: int, z: i32)
    requires
        pixel_covered(v1, v2, v3, px, py),
        v1.transformed_position.z == z,
        v2.transformed_position.z == z,
        v3.transformed_position.z == z,
    ensures
        fragment_at(v1, v2, v3, px, py).depth == z,
{
    let (a, b, c) = oriented(v1, v2, v3);
    let (pa, pb, pc) = (pos2(a), pos2(b), pos2(c));
    let s = sample(px, py);
    lemma_bary_identities(pa, pb, pc, s);
    let (w0, w1, w2) = (edge(pb, pc, s), edge(pc, pa, s), edge(pa, pb, s));
    let area = edge(pa, pb, pc);
    assert(w0 * z + w1 * z + w2 * z == area * z) by (nonlinear_arith)
        requires
            w0 + w1 + w2 == area,
    ;
    vstd::arithmetic::div_mod::lemma_div_multiples_vanish(z as int, area);
    assert(bary((w0, w1, w2), area, z as int, z as int, z as int) == z);
}

} // verus!
