use softraster::framebuffer::{Framebuffer, DEPTH_FAR, LINE_DEPTH};

fn at(fb: &Framebuffer, x: usize, y: usize) -> (u32, i32) {
    let i = y * fb.width + x;
    (fb.buffer[i], fb.zbuffer[i])
}

#[test]
fn new_buffer_is_black_and_far() {
    let fb = Framebuffer::new(4, 3);
    assert_eq!(fb.buffer.len(), 12);
    assert_eq!(fb.zbuffer.len(), 12);
    assert!(fb.buffer.iter().all(|&c| c == 0));
    assert!(fb.zbuffer.iter().all(|&d| d == DEPTH_FAR));
}

#[test]
fn point_writes_current_color_when_closer() {
    let mut fb = Framebuffer::new(4, 3);
    fb.set_current_color(0x123456);
    fb.point(2, 1, 100);
    assert_eq!(at(&fb, 2, 1), (0x123456, 100));
    assert_eq!(at(&fb, 1, 2), (0, DEPTH_FAR));
}

#[test]
fn point_outside_bounds_changes_nothing() {
    let mut fb = Framebuffer::new(4, 3);
    fb.set_current_color(0xFFFFFF);
    let before = (fb.buffer.clone(), fb.zbuffer.clone());
    fb.point(4, 0, 0);
    fb.point(0, 3, 0);
    fb.point(usize::MAX, usize::MAX, i32::MIN);
    assert_eq!((fb.buffer.clone(), fb.zbuffer.clone()), before);
}

#[test]
fn point_at_far_depth_never_writes() {
    let mut fb = Framebuffer::new(2, 2);
    fb.point(0, 0, DEPTH_FAR);
    assert_eq!(at(&fb, 0, 0), (0, DEPTH_FAR));
}

#[test]
fn closer_write_wins_in_either_order() {
    let mut a = Framebuffer::new(3, 3);
    a.set_current_color(0xFF0000);
    a.point(1, 1, 50);
    a.set_current_color(0x00FF00);
    a.point(1, 1, 20);

    let mut b = Framebuffer::new(3, 3);
    b.set_current_color(0x00FF00);
    b.point(1, 1, 20);
    b.set_current_color(0xFF0000);
    b.point(1, 1, 50);

    assert_eq!(at(&a, 1, 1), (0x00FF00, 20));
    assert_eq!(at(&b, 1, 1), (0x00FF00, 20));
}

#[test]
fn equal_depth_does_not_overwrite() {
    let mut fb = Framebuffer::new(2, 2);
    fb.set_current_color(0x0000FF);
    fb.point(0, 1, 7);
    fb.set_current_color(0xFF00FF);
    fb.point(0, 1, 7);
    assert_eq!(at(&fb, 0, 1), (0x0000FF, 7));
}

#[test]
fn repeated_same_depth_write_is_idempotent() {
    let mut fb = Framebuffer::new(2, 2);
    fb.set_current_color(0xABCDEF);
    fb.point(1, 0, -3);
    let once = (fb.buffer.clone(), fb.zbuffer.clone());
    fb.point(1, 0, -3);
    assert_eq!((fb.buffer.clone(), fb.zbuffer.clone()), once);
}

#[test]
fn clear_restores_background_and_far_depth() {
    let mut fb = Framebuffer::new(5, 4);
    fb.set_current_color(0xFFFFFF);
    for y in 0..4 {
        for x in 0..5 {
            fb.point(x, y, (x + y) as i32);
        }
    }
    fb.set_background_color(0x202020);
    fb.clear();
    for y in 0..4 {
        for x in 0..5 {
            assert_eq!(at(&fb, x, y), (0x202020, DEPTH_FAR));
        }
    }
}

#[test]
fn bresenham_line_stops_before_end_point() {
    let mut fb = Framebuffer::new(5, 5);
    fb.set_current_color(0x00FFFF);
    fb.line(0, 0, 3, 0);
    assert_eq!(at(&fb, 0, 0), (0x00FFFF, LINE_DEPTH));
    assert_eq!(at(&fb, 1, 0), (0x00FFFF, LINE_DEPTH));
    assert_eq!(at(&fb, 2, 0), (0x00FFFF, LINE_DEPTH));
    assert_eq!(at(&fb, 3, 0), (0, DEPTH_FAR));
}

#[test]
fn bresenham_diagonal_and_steep_lines() {
    let mut fb = Framebuffer::new(6, 6);
    fb.line(4, 4, 0, 0);
    for i in 1..5 {
        assert_eq!(at(&fb, i, i).1, LINE_DEPTH);
    }
    assert_eq!(at(&fb, 0, 0).1, DEPTH_FAR);

    let mut g = Framebuffer::new(6, 6);
    g.line(0, 0, 1, 4);
    let drawn: Vec<(usize, usize)> = (0..6)
        .flat_map(|y| (0..6).map(move |x| (x, y)))
        .filter(|&(x, y)| at(&g, x, y).1 == LINE_DEPTH)
        .collect();
    assert_eq!(drawn, vec![(0, 0), (0, 1), (1, 2), (1, 3)]);
}

#[test]
fn bresenham_line_of_one_point_draws_nothing() {
    let mut fb = Framebuffer::new(3, 3);
    fb.line(1, 1, 1, 1);
    assert!(fb.zbuffer.iter().all(|&d| d == DEPTH_FAR));
}

#[test]
fn line_off_screen_is_clipped() {
    let mut fb = Framebuffer::new(3, 3);
    fb.line(1, 1, 6, 1);
    assert_eq!(at(&fb, 1, 1).1, LINE_DEPTH);
    assert_eq!(at(&fb, 2, 1).1, LINE_DEPTH);
}

#[test]
fn depth_line_interpolates_depth() {
    let mut fb = Framebuffer::new(5, 5);
    fb.set_current_color(0x112233);
    fb.line_with_depth(0, 0, 0, 4, 2, 400);
    assert_eq!(at(&fb, 0, 0), (0x112233, 0));
    assert_eq!(at(&fb, 1, 1), (0x112233, 100));
    assert_eq!(at(&fb, 2, 1), (0x112233, 200));
    assert_eq!(at(&fb, 3, 2), (0x112233, 300));
    assert_eq!(at(&fb, 4, 2), (0x112233, 400));
    assert_eq!(fb.zbuffer.iter().filter(|&&d| d != DEPTH_FAR).count(), 5);
}

#[test]
fn depth_line_of_one_point() {
    let mut fb = Framebuffer::new(3, 3);
    fb.line_with_depth(2, 1, 9, 2, 1, 50);
    assert_eq!(at(&fb, 2, 1).1, 9);
    assert_eq!(fb.zbuffer.iter().filter(|&&d| d != DEPTH_FAR).count(), 1);
}

#[test]
fn dimensions_are_reported() {
    let fb = Framebuffer::new(7, 2);
    assert_eq!(fb.width(), 7);
    assert_eq!(fb.height(), 2);
}

#[test]
fn line_with_far_coordinates_is_skipped() {
    let mut fb = Framebuffer::new(3, 3);
    let far = 1usize << 40;
    fb.line(far, 1, far + 3, 2);
    fb.line(far, far, far - 2, far + 1);
    assert!(fb.zbuffer.iter().all(|&d| d == DEPTH_FAR));
}
