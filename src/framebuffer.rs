//! The colour buffer and its parallel depth buffer, with depth-tested writes.
use vstd::prelude::*;
use crate::fixed::{clamp_i32, floor_div, saturate_i32, lemma_mul_bound};

verus! {

/// The depth that stands for "nothing drawn yet": no write can pass a test against it.
pub const DEPTH_FAR: i32 = i32::MAX;

/// The depth given to pixels drawn by `line` (1.0 in Q16.16).
pub const LINE_DEPTH: i32 = 65536;

/// The mathematical content of a framebuffer.
pub struct FrameView {
    pub width: nat,
    pub height: nat,
    pub colors: Seq<u32>,
    pub depths: Seq<i32>,
    pub background: u32,
    pub current: u32,
}

pub open spec fn pixel_index(width: nat, x: int, y: int) -> int {
    y * width + x
}

impl FrameView {
    pub open spec fn wf(self) -> bool {
        &&& self.colors.len() == self.width * self.height
        &&& self.depths.len() == self.width * self.height
        &&& self.width * self.height <= usize::MAX
    }

    pub open spec fn in_bounds(self, x: int, y: int) -> bool {
        0 <= x < self.width && 0 <= y < self.height
    }

    /// The colour stored at a pixel.
    pub open spec fn color_at(self, x: int, y: int) -> u32 {
        self.colors[pixel_index(self.width, x, y)]
    }

    /// The depth stored at a pixel.
    pub open spec fn depth_at(self, x: int, y: int) -> i32 {
        self.depths[pixel_index(self.width, x, y)]
    }

    /// A depth-tested write of the current colour: it lands only inside the
    /// buffer and only where `depth` is strictly closer than what is stored.
    pub open spec fn point(self, x: int, y: int, depth: i32) -> FrameView {
        let i = pixel_index(self.width, x, y);
        if self.in_bounds(x, y) && depth < self.depths[i] {
            FrameView {
                colors: self.colors.update(i, self.current),
                depths: self.depths.update(i, depth),
                ..self
            }
        } else {
            self
        }
    }

    pub open spec fn with_current(self, c: u32) -> FrameView {
        FrameView { current: c, ..self }
    }

    /// Writes, in order, each point of `pts` at the depth `depth`.
    pub open spec fn points(self, pts: Seq<(int, int)>, depth: i32) -> FrameView
        decreases pts.len(),
    {
        if pts.len() == 0 {
            self
        } else {
            self.points(pts.drop_last(), depth).point(pts.last().0, pts.last().1, depth)
        }
    }

    /// Writes, in order, each point of `pts` at its own depth.
    pub open spec fn points_with_depth(self, pts: Seq<(int, int, i32)>) -> FrameView
        decreases pts.len(),
    {
        if pts.len() == 0 {
            self
        } else {
            let p = pts.last();
            self.points_with_depth(pts.drop_last()).point(p.0, p.1, p.2)
        }
    }

    /// The same buffer with every pixel reset to the background and the far depth.
    pub open spec fn cleared(self) -> FrameView {
        FrameView {
            colors: Seq::new(self.width * self.height, |i: int| self.background),
            depths: Seq::new(self.width * self.height, |i: int| DEPTH_FAR),
            ..self
        }
    }
}

/// The index of an in-bounds pixel lies inside the buffer.
pub proof fn lemma_index_in_range(width: nat, height: nat, x: int, y: int)
    requires
        0 <= x < width,
        0 <= y < height,
    ensures
        0 <= pixel_index(width, x, y) < width * height,
{
    assert(0 <= y * width + x < width * height) by (nonlinear_arith)
        requires
            0 <= x < width,
            0 <= y < height,
    ;
}

/// Two distinct in-bounds pixels have distinct indices.
pub proof fn lemma_index_injective(width: nat, x1: int, y1: int, x2: int, y2: int)
    requires
        0 <= x1 < width,
        0 <= x2 < width,
        0 <= y1,
        0 <= y2,
        pixel_index(width, x1, y1) == pixel_index(width, x2, y2),
    ensures
        x1 == x2 && y1 == y2,
{
    assert(x1 == x2 && y1 == y2) by (nonlinear_arith)
        requires
            0 <= x1 < width,
            0 <= x2 < width,
            0 <= y1,
            0 <= y2,
            y1 * width + x1 == y2 * width + x2,
    ;
}

/// A point written outside `[0, width) x [0, height)` leaves the buffer unchanged.
pub proof fn lemma_point_outside_is_noop(v: FrameView, x: int, y: int, depth: i32)
    requires
        !v.in_bounds(x, y),
    ensures
        v.point(x, y, depth) == v,
{
}

/// Two writes to one pixel leave what a single write of the closer depth leaves,
/// whichever of the two comes first.
pub proof fn lemma_point_closer_wins(v: FrameView, x: int, y: int, d1: i32, d2: i32)
    requires
        v.wf(),
    ensures
        v.point(x, y, d1).point(x, y, d2) == v.point(x, y, if d1 < d2 { d1 } else { d2 }),
        v.point(x, y, d1).point(x, y, d2) == v.point(x, y, d2).point(x, y, d1),
{
    let i = pixel_index(v.width, x, y);
    if v.in_bounds(x, y) {
        lemma_index_in_range(v.width, v.height, x, y);
        let m = if d1 < d2 { d1 } else { d2 };
        let a = v.point(x, y, d1).point(x, y, d2);
        let b = v.point(x, y, d2).point(x, y, d1);
        let c = v.point(x, y, m);
        assert(a.colors =~= c.colors);
        assert(a.depths =~= c.depths);
        assert(b.colors =~= c.colors);
        assert(b.depths =~= c.depths);
    }
}

/// Two writes of different colours at different depths to one pixel leave the
/// colour and depth of the closer one, whichever comes first.
pub proof fn lemma_point_closer_color_wins(
    v: FrameView,
    x: int,
    y: int,
    c1: u32,
    d1: i32,
    c2: u32,
    d2: i32,
)
    requires
        v.wf(),
        d1 != d2,
    ensures
        ({
            let first = v.with_current(c1).point(x, y, d1).with_current(c2).point(x, y, d2);
            let second = v.with_current(c2).point(x, y, d2).with_current(c1).point(x, y, d1);
            let closer = if d1 < d2 {
                v.with_current(c1).point(x, y, d1)
            } else {
                v.with_current(c2).point(x, y, d2)
            };
            &&& first.colors == closer.colors
            &&& first.depths == closer.depths
            &&& second.colors == closer.colors
            &&& second.depths == closer.depths
        }),
{
    if v.in_bounds(x, y) {
        lemma_index_in_range(v.width, v.height, x, y);
        let first = v.with_current(c1).point(x, y, d1).with_current(c2).point(x, y, d2);
        let second = v.with_current(c2).point(x, y, d2).with_current(c1).point(x, y, d1);
        let closer = if d1 < d2 {
            v.with_current(c1).point(x, y, d1)
        } else {
            v.with_current(c2).point(x, y, d2)
        };
        assert(first.colors =~= closer.colors);
        assert(first.depths =~= closer.depths);
        assert(second.colors =~= closer.colors);
        assert(second.depths =~= closer.depths);
    }
}

/// After a clear, every pixel holds the background colour and the far depth.
pub proof fn lemma_cleared_pixel(v: FrameView, x: int, y: int)
    requires
        v.in_bounds(x, y),
    ensures
        v.cleared().color_at(x, y) == v.background,
        v.cleared().depth_at(x, y) == DEPTH_FAR,
{
    lemma_index_in_range(v.width, v.height, x, y);
}

/// `a / b` rounded to the nearest integer, halves rounded up (for `b > 0`).
pub open spec fn round_div(a: int, b: int) -> int {
    (2 * a + b) / (2 * b)
}

pub open spec fn abs_diff(a: int, b: int) -> int {
    if a >= b {
        a - b
    } else {
        b - a
    }
}

/// The number of steps of a line: the larger of its extents along x and y.
pub open spec fn line_steps(x1: int, y1: int, x2: int, y2: int) -> int {
    if abs_diff(x1, x2) >= abs_diff(y1, y2) {
        abs_diff(x1, x2)
    } else {
        abs_diff(y1, y2)
    }
}

/// The samples of a line with interpolated depth: `steps + 1` evenly spaced
/// points from the first endpoint to the second, each position rounded to the
/// nearest pixel and each depth interpolated and rounded down.
pub open spec fn depth_line_points(x1: int, y1: int, z1: int, x2: int, y2: int, z2: int) -> Seq<
    (int, int, i32),
> {
    let n = line_steps(x1, y1, x2, y2);
    if n == 0 {
        seq![(x1, y1, z1 as i32)]
    } else {
        Seq::new(
            (n + 1) as nat,
            |i: int|
                (
                    x1 + round_div(i * (x2 - x1), n),
                    y1 + round_div(i * (y2 - y1), n),
                    clamp_i32(z1 + (i * (z2 - z1)) / n) as i32,
                ),
        )
    }
}

/// The state `(x, y, err)` of Bresenham's walk from `(x0, y0)` toward
/// `(x1, y1)` after `k` steps. Each step moves along x when twice the error is
/// at least `-|y1 - y0|`, and along y when it is at most `|x1 - x0|`.
pub open spec fn bresenham_state(x0: int, y0: int, x1: int, y1: int, k: nat) -> (int, int, int)
    decreases k,
{
    let dx = abs_diff(x0, x1);
    let dy = -abs_diff(y0, y1);
    if k == 0 {
        (x0, y0, dx + dy)
    } else {
        let (x, y, e) = bresenham_state(x0, y0, x1, y1, (k - 1) as nat);
        let sx = if x0 < x1 {
            1int
        } else {
            -1int
        };
        let sy = if y0 < y1 {
            1int
        } else {
            -1int
        };
        let e2 = 2 * e;
        let (xa, ea) = if e2 >= dy {
            (x + sx, e + dy)
        } else {
            (x, e)
        };
        if e2 <= dx {
            (xa, y + sy, ea + dx)
        } else {
            (xa, y, ea)
        }
    }
}

/// The walk reaches `(x1, y1)` after exactly `n` steps, and not before.
pub open spec fn bresenham_ends_at(x0: int, y0: int, x1: int, y1: int, n: nat) -> bool {
    &&& bresenham_state(x0, y0, x1, y1, n).0 == x1
    &&& bresenham_state(x0, y0, x1, y1, n).1 == y1
    &&& forall|k: nat|
        k < n ==> !(#[trigger] bresenham_state(x0, y0, x1, y1, k).0 == x1 && bresenham_state(
            x0,
            y0,
            x1,
            y1,
            k,
        ).1 == y1)
}

pub open spec fn between(v: int, a: int, b: int) -> bool {
    (a <= v <= b) || (b <= v <= a)
}

/// The first `n + 1` states of the walk lie in the bounding box of the endpoints.
pub open spec fn bresenham_path_in_box(x0: int, y0: int, x1: int, y1: int, n: nat) -> bool {
    forall|k: nat|
        k <= n ==> between(#[trigger] bresenham_state(x0, y0, x1, y1, k).0, x0, x1) && between(
            bresenham_state(x0, y0, x1, y1, k).1,
            y0,
            y1,
        )
}

/// Consecutive states of the walk differ by at most one pixel along each axis.
pub open spec fn bresenham_connected(x0: int, y0: int, x1: int, y1: int) -> bool {
    forall|k: nat|
        abs_diff(#[trigger] bresenham_state(x0, y0, x1, y1, k + 1).0, bresenham_state(x0, y0, x1, y1, k).0)
            <= 1 && abs_diff(bresenham_state(x0, y0, x1, y1, k + 1).1, bresenham_state(x0, y0, x1, y1, k).1)
            <= 1
}

/// Each step of the walk moves at most one pixel along each axis.
pub proof fn lemma_bresenham_connected(x0: int, y0: int, x1: int, y1: int)
    ensures
        bresenham_connected(x0, y0, x1, y1),
{
    assert forall|k: nat|
        abs_diff(#[trigger] bresenham_state(x0, y0, x1, y1, k + 1).0, bresenham_state(x0, y0, x1, y1, k).0)
            <= 1 && abs_diff(bresenham_state(x0, y0, x1, y1, k + 1).1, bresenham_state(x0, y0, x1, y1, k).1)
            <= 1 by {
        assert(((k + 1) as nat - 1) as nat == k);
    }
}

/// The first `n` pixels of the walk, starting with `(x0, y0)`.
pub open spec fn bresenham_points(x0: int, y0: int, x1: int, y1: int, n: nat) -> Seq<(int, int)> {
    Seq::new(
        n,
        |k: int|
            (
                bresenham_state(x0, y0, x1, y1, k as nat).0,
                bresenham_state(x0, y0, x1, y1, k as nat).1,
            ),
    )
}

/// A colour buffer of packed `0xRRGGBB` pixels and a parallel depth buffer, both
/// indexed by `y * width + x`.
pub struct Framebuffer {
    pub width: usize,
    pub height: usize,
    pub buffer: Vec<u32>,
    pub zbuffer: Vec<i32>,
    background_color: u32,
    current_color: u32,
}

impl View for Framebuffer {
    type V = FrameView;

    closed spec fn view(&self) -> FrameView {
        FrameView {
            width: self.width as nat,
            height: self.height as nat,
            colors: self.buffer@,
            depths: self.zbuffer@,
            background: self.background_color,
            current: self.current_color,
        }
    }
}

impl Framebuffer {
    /// A `width` by `height` buffer, black, at the far depth, painting in white.
    pub fn new(width: usize, height: usize) -> (fb: Framebuffer)
        requires
            width * height <= usize::MAX,
        ensures
            fb@.wf(),
            fb@.width == width,
            fb@.height == height,
            fb@.background == 0,
            fb@.current == 0xFFFFFF,
            fb@.colors == Seq::new((width * height) as nat, |i: int| 0u32),
            fb@.depths == Seq::new((width * height) as nat, |i: int| DEPTH_FAR),
    {
        let n = width * height;
        let mut buffer: Vec<u32> = Vec::new();
        let mut zbuffer: Vec<i32> = Vec::new();
        let mut i: usize = 0;
        while i < n
            invariant
                i <= n,
                buffer@ == Seq::new(i as nat, |k: int| 0u32),
                zbuffer@ == Seq::new(i as nat, |k: int| DEPTH_FAR),
            decreases n - i,
        {
            buffer.push(0);
            zbuffer.push(DEPTH_FAR);
            i = i + 1;
            assert(buffer@ =~= Seq::new(i as nat, |k: int| 0u32));
            assert(zbuffer@ =~= Seq::new(i as nat, |k: int| DEPTH_FAR));
        }
        Framebuffer {
            width,
            height,
            buffer,
            zbuffer,
            background_color: 0x000000,
            current_color: 0xFFFFFF,
        }
    }

    /// Resets every pixel to the background colour and the far depth.
    pub fn clear(&mut self)
        requires
            old(self)@.wf(),
        ensures
            final(self)@ == old(self)@.cleared(),
            final(self)@.wf(),
    {
        let n = self.buffer.len();
        let mut i: usize = 0;
        while i < n
            invariant
                i <= n,
                n == self.buffer@.len(),
                self.width == old(self).width,
                self.height == old(self).height,
                self.background_color == old(self).background_color,
                self.current_color == old(self).current_color,
                self.zbuffer@ == old(self).zbuffer@,
                self.buffer@.len() == n,
                forall|k: int| 0 <= k < i ==> self.buffer@[k] == self.background_color,
            decreases n - i,
        {
            self.buffer.set(i, self.background_color);
            i = i + 1;
        }
        let m = self.zbuffer.len();
        let mut j: usize = 0;
        while j < m
            invariant
                j <= m,
                m == self.zbuffer@.len(),
                self.width == old(self).width,
                self.height == old(self).height,
                self.background_color == old(self).background_color,
                self.current_color == old(self).current_color,
                self.buffer@.len() == n,
                forall|k: int| 0 <= k < n ==> self.buffer@[k] == self.background_color,
                forall|k: int| 0 <= k < j ==> self.zbuffer@[k] == DEPTH_FAR,
            decreases m - j,
        {
            self.zbuffer.set(j, DEPTH_FAR);
            j = j + 1;
        }
        assert(self@.colors =~= old(self)@.cleared().colors);
        assert(self@.depths =~= old(self)@.cleared().depths);
    }

    /// Writes the current colour at `(x, y)` if the pixel is inside the buffer and
    /// `depth` is strictly closer than the stored depth; otherwise does nothing.
    pub fn point(&mut self, x: usize, y: usize, depth: i32)
        requires
            old(self)@.wf(),
        ensures
            final(self)@ == old(self)@.point(x as int, y as int, depth),
            final(self)@.wf(),
    {
        if x < self.width && y < self.height {
            proof {
                lemma_index_in_range(self@.width, self@.height, x as int, y as int);
            }
            let index = y * self.width + x;
            if self.zbuffer[index] > depth {
                self.buffer.set(index, self.current_color);
                self.zbuffer.set(index, depth);
            }
        }
    }

    pub fn width(&self) -> (w: usize)
        ensures
            w == self@.width,
    {
        self.width
    }

    pub fn height(&self) -> (h: usize)
        ensures
            h == self@.height,
    {
        self.height
    }

    /// Draws a segment from `(x1, y1)` to `(x2, y2)` in `steps + 1` evenly spaced
    /// samples, the depth going linearly from `z1` to `z2`; each sample is a
    /// depth-tested point, and samples outside the buffer are skipped. The
    /// endpoints' coordinates fit in 32 bits, which keeps the interpolation
    /// within 128-bit arithmetic.
    pub fn line_with_depth(&mut self, x1: usize, y1: usize, z1: i32, x2: usize, y2: usize, z2: i32)
        requires
            old(self)@.wf(),
            x1 <= u32::MAX,
            y1 <= u32::MAX,
            x2 <= u32::MAX,
            y2 <= u32::MAX,
        ensures
            final(self)@.wf(),
            final(self)@ == old(self)@.points_with_depth(
                depth_line_points(x1 as int, y1 as int, z1 as int, x2 as int, y2 as int, z2 as int),
            ),
    {
        let (ax, ay, bx, by) = (x1 as i128, y1 as i128, x2 as i128, y2 as i128);
        let dx = bx - ax;
        let dy = by - ay;
        let dz = z2 as i128 - z1 as i128;
        let adx = if dx >= 0 {
            dx
        } else {
            -dx
        };
        let ady = if dy >= 0 {
            dy
        } else {
            -dy
        };
        let steps = if adx >= ady {
            adx
        } else {
            ady
        };
        let ghost pts = depth_line_points(x1 as int, y1 as int, z1 as int, x2 as int, y2 as int, z2 as int);
        if steps == 0 {
            self.point(x1, y1, z1);
            proof {
                assert(pts.drop_last().len() == 0);
                assert(old(self)@.points_with_depth(pts.drop_last()) == old(self)@);
            }
            return;
        }
        let mut i: i128 = 0;
        while i <= steps
            invariant
                0 <= i <= steps + 1,
                steps == line_steps(x1 as int, y1 as int, x2 as int, y2 as int),
                steps > 0,
                steps <= u32::MAX,
                dx == x2 - x1,
                dy == y2 - y1,
                dz == z2 - z1,
                -0x1_0000_0000 <= dx <= 0x1_0000_0000,
                -0x1_0000_0000 <= dy <= 0x1_0000_0000,
                -0x1_0000_0000 <= dz <= 0x1_0000_0000,
                ax == x1,
                ay == y1,
                pts == depth_line_points(x1 as int, y1 as int, z1 as int, x2 as int, y2 as int, z2 as int),
                pts.len() == steps + 1,
                self@.wf(),
                self@ == old(self)@.points_with_depth(pts.take(i as int)),
            decreases steps + 1 - i,
        {
            proof {
                lemma_mul_bound(i as int, dx as int, 0x1_0000_0000, 0x1_0000_0000);
                lemma_mul_bound(i as int, dy as int, 0x1_0000_0000, 0x1_0000_0000);
                lemma_mul_bound(i as int, dz as int, 0x1_0000_0000, 0x1_0000_0000);
            }
            let xi = ax + floor_div(2 * (i * dx) + steps, 2 * steps);
            let yi = ay + floor_div(2 * (i * dy) + steps, 2 * steps);
            let zi = saturate_i32(z1 as i128 + floor_div(i * dz, steps));
            proof {
                assert(pts[i as int] == (xi as int, yi as int, zi));
            }
            if 0 <= xi && xi < self.width as i128 && 0 <= yi && yi < self.height as i128 {
                self.point(xi as usize, yi as usize, zi);
            }
            proof {
                assert(pts.take(i + 1).drop_last() =~= pts.take(i as int));
                assert(pts.take(i + 1).last() == pts[i as int]);
            }
            i = i + 1;
        }
        proof {
            assert(pts.take(i as int) =~= pts);
        }
    }

    /// Draws the pixels of Bresenham's line from `(x0, y0)` up to, but not
    /// including, `(x1, y1)`, each as a depth-tested point at `LINE_DEPTH`;
    /// pixels outside the buffer are skipped. The walk takes exactly
    /// `max(|x1 - x0|, |y1 - y0|)` steps, each of at most one pixel along each
    /// axis, and stays within the bounding box of the endpoints.
    pub fn line(&mut self, x0: usize, y0: usize, x1: usize, y1: usize)
        requires
            old(self)@.wf(),
        ensures
            final(self)@.wf(),
            bresenham_ends_at(
                x0 as int,
                y0 as int,
                x1 as int,
                y1 as int,
                line_steps(x0 as int, y0 as int, x1 as int, y1 as int) as nat,
            ),
            bresenham_path_in_box(
                x0 as int,
                y0 as int,
                x1 as int,
                y1 as int,
                line_steps(x0 as int, y0 as int, x1 as int, y1 as int) as nat,
            ),
            bresenham_connected(x0 as int, y0 as int, x1 as int, y1 as int),
            final(self)@ == old(self)@.points(
                bresenham_points(
                    x0 as int,
                    y0 as int,
                    x1 as int,
                    y1 as int,
                    line_steps(x0 as int, y0 as int, x1 as int, y1 as int) as nat,
                ),
                LINE_DEPTH,
            ),
    {
        let ghost (gx0, gy0, gx1, gy1) = (x0 as int, y0 as int, x1 as int, y1 as int);
        let mut x = x0 as i128;
        let mut y = y0 as i128;
        let tx = x1 as i128;
        let ty = y1 as i128;
        let dx = if tx >= x {
            tx - x
        } else {
            x - tx
        };
        let dy = if ty >= y {
            y - ty
        } else {
            ty - y
        };
        let sx: i128 = if x < tx {
            1
        } else {
            -1
        };
        let sy: i128 = if y < ty {
            1
        } else {
            -1
        };
        let mut err = dx + dy;
        let ghost mut k: nat = 0;
        let ghost big_x = dx as int;
        let ghost big_y = -dy;
        proof {
            assert(big_y * big_x == big_x * big_y) by (nonlinear_arith);
            lemma_bresenham_connected(gx0, gy0, gx1, gy1);
        }
        while x != tx || y != ty
            invariant
                self@.wf(),
                self@ == old(self)@.points(bresenham_points(gx0, gy0, gx1, gy1, k), LINE_DEPTH),
                bresenham_state(gx0, gy0, gx1, gy1, k) == (x as int, y as int, err as int),
                forall|j: nat|
                    j < k ==> !(#[trigger] bresenham_state(gx0, gy0, gx1, gy1, j).0 == gx1
                        && bresenham_state(gx0, gy0, gx1, gy1, j).1 == gy1),
                bresenham_path_in_box(gx0, gy0, gx1, gy1, k),
                gx0 == x0,
                gy0 == y0,
                gx1 == x1,
                gy1 == y1,
                tx == x1,
                ty == y1,
                big_x == abs_diff(gx0, gx1),
                big_y == abs_diff(gy0, gy1),
                dx == big_x,
                dy == -big_y,
                0 <= big_x <= usize::MAX,
                0 <= big_y <= usize::MAX,
                sx == (if gx0 < gx1 {
                    1int
                } else {
                    -1int
                }),
                sy == (if gy0 < gy1 {
                    1int
                } else {
                    -1int
                }),
                sx == 1 ==> x <= tx,
                sx == -1 ==> x >= tx,
                sy == 1 ==> y <= ty,
                sy == -1 ==> y >= ty,
                abs_diff(x as int, tx as int) <= big_x,
                abs_diff(y as int, ty as int) <= big_y,
                err == big_y * abs_diff(x as int, tx as int) - big_x * abs_diff(y as int, ty as int)
                    + big_x - big_y,
                -2 * (big_x + big_y) <= err <= 2 * (big_x + big_y),
                big_x >= big_y ==> 2 * err >= -big_y && k == big_x - abs_diff(x as int, tx as int),
                big_x < big_y ==> 2 * err <= big_x && k == big_y - abs_diff(y as int, ty as int),
            decreases abs_diff(x as int, tx as int) + abs_diff(y as int, ty as int),
        {
            let ghost rx = abs_diff(x as int, tx as int);
            let ghost ry = abs_diff(y as int, ty as int);
            proof {
                if rx == 0 {
                    assert(big_x * ry >= big_x) by (nonlinear_arith)
                        requires
                            big_x >= 0,
                            ry >= 1,
                    ;
                }
                if ry == 0 {
                    assert(big_y * rx >= big_y) by (nonlinear_arith)
                        requires
                            big_y >= 0,
                            rx >= 1,
                    ;
                }
                assert(big_y * (rx - 1) == big_y * rx - big_y) by (nonlinear_arith);
                assert(big_x * (ry - 1) == big_x * ry - big_x) by (nonlinear_arith);
            }
            if 0 <= x && x < self.width as i128 && 0 <= y && y < self.height as i128 {
                self.point(x as usize, y as usize, LINE_DEPTH);
            }
            let e2 = 2 * err;
            if e2 >= dy {
                err = err + dy;
                x = x + sx;
            }
            if e2 <= dx {
                err = err + dx;
                y = y + sy;
            }
            proof {
                let pts = bresenham_points(gx0, gy0, gx1, gy1, (k + 1) as nat);
                assert(pts.drop_last() =~= bresenham_points(gx0, gy0, gx1, gy1, k));
                k = (k + 1) as nat;
                assert(abs_diff(x as int, tx as int) <= big_x);
                assert(abs_diff(y as int, ty as int) <= big_y);
                assert(sx == 1 ==> x <= tx);
                assert(sx == -1 ==> x >= tx);
                assert(sy == 1 ==> y <= ty);
                assert(sy == -1 ==> y >= ty);
                assert(between(x as int, gx0, gx1));
                assert(between(y as int, gy0, gy1));
                assert forall|j: nat| j <= k implies between(
                    #[trigger] bresenham_state(gx0, gy0, gx1, gy1, j).0,
                    gx0,
                    gx1,
                ) && between(bresenham_state(gx0, gy0, gx1, gy1, j).1, gy0, gy1) by {
                    if j == k {
                        assert(bresenham_state(gx0, gy0, gx1, gy1, j) == (x as int, y as int, err as int));
                    }
                }
            }
        }
        proof {
            assert(bresenham_ends_at(gx0, gy0, gx1, gy1, k));
            assert(k == line_steps(gx0, gy0, gx1, gy1));
        }
    }

    pub fn set_background_color(&mut self, color: u32)
        ensures
            final(self)@ == (FrameView { background: color, ..old(self)@ }),
    {
        self.background_color = color;
    }

    pub fn set_current_color(&mut self, color: u32)
        ensures
            final(self)@ == old(self)@.with_current(color),
    {
        self.current_color = color;
    }
}

} // verus!
