use hweink::geom::{buf_to_screen, screen_to_buf, ScreenRect, BUF_H, BUF_W, SCREEN_H, SCREEN_W};
use hweink::ioctl::Rect;

#[test]
fn corners_rotate_90cw() {
    // buffer top-left (0,0) -> screen top-right (1859, 0)
    assert_eq!(buf_to_screen(0, 0), (BUF_H - 1, 0));
    // buffer top-right (2479, 0) -> screen bottom-right (1859, 2479)
    assert_eq!(buf_to_screen(BUF_W - 1, 0), (BUF_H - 1, BUF_W - 1));
    // buffer bottom-left (0, 1859) -> screen top-left (0, 0)
    assert_eq!(buf_to_screen(0, BUF_H - 1), (0, 0));
    // buffer bottom-right (2479, 1859) -> screen bottom-left (0, 2479)
    assert_eq!(buf_to_screen(BUF_W - 1, BUF_H - 1), (0, BUF_W - 1));
}

#[test]
fn screen_to_buf_roundtrip() {
    for &(sx, sy) in &[(0, 0), (100, 200), (1859, 2479), (929, 1240)] {
        let (x, y) = screen_to_buf(sx, sy);
        assert_eq!(buf_to_screen(x, y), (sx, sy));
    }
}

#[test]
fn full_screen_rect_maps_to_full_buffer() {
    let r = ScreenRect::full().to_buf();
    assert_eq!(r.x1, 0);
    assert_eq!(r.y1, 0);
    assert_eq!(r.x2, BUF_W);
    assert_eq!(r.y2, BUF_H);
}

#[test]
fn screen_to_buf_exact_values() {
    assert_eq!(screen_to_buf(0, 0), (0, 1859));
    assert_eq!(screen_to_buf(1859, 2479), (2479, 0));
    assert_eq!(screen_to_buf(100, 200), (200, 1759));
    assert_eq!(screen_to_buf(-1, 5), (5, 1860));
}

#[test]
fn buf_to_screen_roundtrip() {
    for &(x, y) in &[(0, 0), (2479, 1859), (17, 3), (1240, 929)] {
        let (sx, sy) = buf_to_screen(x, y);
        assert_eq!(screen_to_buf(sx, sy), (x, y));
    }
}

#[test]
fn rotation_keeps_points_in_bounds() {
    for &(sx, sy) in &[(0, 0), (1859, 0), (0, 2479), (1859, 2479), (930, 1200)] {
        let (x, y) = screen_to_buf(sx, sy);
        assert!(x >= 0 && x < BUF_W && y >= 0 && y < BUF_H);
    }
    let (x, y) = screen_to_buf(SCREEN_W, 0);
    assert!(!(x >= 0 && x < BUF_W && y >= 0 && y < BUF_H));
}

#[test]
fn to_buf_normalizes_reversed_corners() {
    let a = ScreenRect::new(100, 200, 300, 500).to_buf();
    let b = ScreenRect::new(300, 500, 100, 200).to_buf();
    assert_eq!((a.x1, a.y1, a.x2, a.y2), (200, 1560, 500, 1760));
    assert_eq!((b.x1, b.y1, b.x2, b.y2), (200, 1560, 500, 1760));
}

#[test]
fn to_buf_holds_exactly_the_rotated_pixels() {
    let r = ScreenRect::new(10, 20, 13, 24);
    let b = r.to_buf();
    for sx in 5..18 {
        for sy in 15..30 {
            let inside = sx >= 10 && sx < 13 && sy >= 20 && sy < 24;
            let (x, y) = screen_to_buf(sx, sy);
            let held = x >= b.x1 && x < b.x2 && y >= b.y1 && y < b.y2;
            assert_eq!(inside, held);
        }
    }
}

#[test]
fn screen_rect_new_and_full() {
    let r = ScreenRect::new(1, 2, 3, 4);
    assert_eq!((r.x1, r.y1, r.x2, r.y2), (1, 2, 3, 4));
    let f = ScreenRect::full();
    assert_eq!((f.x1, f.y1, f.x2, f.y2), (0, 0, SCREEN_W, SCREEN_H));
}

#[test]
fn clipped_orders_and_clamps() {
    let c = ScreenRect::clipped(2000, -5, 100, 3000);
    assert_eq!((c.x1, c.y1, c.x2, c.y2), (100, 0, SCREEN_W, SCREEN_H));
}

#[test]
fn rect_new_and_full() {
    let r = Rect::new(1, 2, 3, 4);
    assert_eq!((r.x1, r.y1, r.x2, r.y2), (1, 2, 3, 4));
    let f = Rect::full(7, 9);
    assert_eq!((f.x1, f.y1, f.x2, f.y2), (0, 0, 7, 9));
}
