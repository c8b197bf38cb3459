use hweink::draw::{stamp_disk, SHADOW_BYTES, SHADOW_STRIDE};
use hweink::ebc::{Ebc, MMAP_SIZE};
use hweink::geom::{screen_to_buf, ScreenRect, BUF_H, BUF_W, SCREEN_H, SCREEN_W};
use hweink::ioctl::{
    EbcBufInfo, IoctlArg, EBC_DISABLE_OVERLAY, EBC_ENABLE_OVERLAY, EBC_SEND_BUFFER,
    EBC_SEND_OSD_BUFFER, EBC_SET_DIFF_PERCENT, EBC_SET_FB_BLANK, EBC_SET_FB_UNBLANK,
    EBC_SET_FULL_MODE_NUM, EBC_WAIT_NEW_BUF_TIME, EBC_Y4, EBC_Y8,
};
use hweink::mode::Mode;
use hweink::path::{Path, ShadowBuffer, Surface};

fn device_info() -> EbcBufInfo {
    let mut info = EbcBufInfo::default();
    info.width = BUF_W;
    info.height = BUF_H;
    info.offset = 0x1000;
    info.width_mm = 216;
    info.height_mm = 173;
    info
}

fn device() -> Ebc {
    let mut osd = EbcBufInfo::default();
    osd.offset = 0x140_0000;
    let mut main = EbcBufInfo::default();
    main.offset = 0xa0_0000;
    Ebc::from_probe(7, 0x7000_0000, MMAP_SIZE, device_info(), EBC_Y8, Some(main), Some(osd))
}

fn frame() -> Vec<u8> {
    vec![0x11u8; (BUF_W as usize) * (BUF_H as usize)]
}

fn native_at(sx: i32, sy: i32) -> usize {
    let (x, y) = screen_to_buf(sx, sy);
    (y as usize) * (BUF_W as usize) + (x as usize)
}

#[test]
fn ebc_from_probe_and_accessors() {
    let e = device();
    assert_eq!(e.fd(), 7);
    assert_eq!(e.map_base(), 0x7000_0000);
    assert_eq!(e.map_len(), MMAP_SIZE);
    assert_eq!(e.width, BUF_W);
    assert_eq!(e.height, BUF_H);
    assert_eq!(e.width_mm, 216);
    assert_eq!(e.main_offset, 0xa0_0000);
    assert_eq!(e.osd_offset, 0x140_0000);
    assert_eq!(e.bpp(), 8);
    assert_eq!(e.stride(), 2480);
    assert_eq!(e.frame_bytes(), 2480 * 1860);
}

#[test]
fn ebc_from_probe_fallbacks() {
    let mut bad = EbcBufInfo::default();
    bad.offset = -4;
    let e = Ebc::from_probe(3, 0, 0, device_info(), -1, Some(bad), Some(bad));
    assert_eq!(e.main_offset, 0);
    assert_eq!(e.osd_offset, 0x1000);
    assert_eq!(e.bpp(), 4);
    let e = Ebc::from_probe(3, 0, 0, device_info(), EBC_Y4, None, None);
    assert_eq!(e.main_offset, 0);
    assert_eq!(e.osd_offset, 0x1000);
    assert_eq!(e.map_base(), 0);
    assert_eq!(e.bpp(), 4);
}

#[test]
fn ebc_requests() {
    let e = device();
    let r = e.ioctl0(EBC_ENABLE_OVERLAY);
    assert_eq!((r.fd, r.cmd), (7, EBC_ENABLE_OVERLAY));
    assert!(matches!(r.arg, IoctlArg::NoArg));
    let r = e.ioctl_info(0x7002, device_info());
    assert!(matches!(r.arg, IoctlArg::Info(i) if i.width == BUF_W));
    let r = e.set_full_mode_num(50);
    assert_eq!(r.cmd, EBC_SET_FULL_MODE_NUM);
    assert!(matches!(r.arg, IoctlArg::Int(50)));
    let r = e.set_diff_percent(30);
    assert_eq!(r.cmd, EBC_SET_DIFF_PERCENT);
    assert!(matches!(r.arg, IoctlArg::Int(30)));
    let r = e.set_wait_new_buf_time(100);
    assert_eq!(r.cmd, EBC_WAIT_NEW_BUF_TIME);
    assert!(matches!(r.arg, IoctlArg::Int(100)));
}

#[test]
fn path_requests_and_defaults() {
    let e = device();
    assert_eq!(Path::Osd.enable(&e).cmd, EBC_ENABLE_OVERLAY);
    assert_eq!(Path::Main.enable(&e).cmd, EBC_SET_FB_BLANK);
    assert_eq!(Path::Osd.disable(&e).cmd, EBC_DISABLE_OVERLAY);
    assert_eq!(Path::Main.disable(&e).cmd, EBC_SET_FB_UNBLANK);
    assert_eq!(Path::Osd.send_cmd(), EBC_SEND_OSD_BUFFER);
    assert_eq!(Path::Main.send_cmd(), EBC_SEND_BUFFER);
    assert_eq!(Path::Osd.default_mode(), Mode::Overlay);
    assert_eq!(Path::Main.default_mode(), Mode::FullGc16);
    assert_eq!(Path::Osd.buffer_offset(&e), 0x140_0000);
    assert_eq!(Path::Main.buffer_offset(&e), 0xa0_0000);
}

#[test]
fn buffer_span_is_one_frame_inside_the_mapping() {
    let e = device();
    let frame_len = (BUF_W as usize) * (BUF_H as usize);
    assert_eq!(Path::Osd.buffer_span(&e), Some((0x140_0000, frame_len)));
    assert_eq!(Path::Main.buffer_span(&e), Some((0xa0_0000, frame_len)));
    let unmapped = Ebc { map_addr: 0, map_len: 0, ..e };
    assert_eq!(Path::Osd.buffer_span(&unmapped), None);
    let past_end = Ebc { osd_offset: (MMAP_SIZE - frame_len + 1) as i32, ..e };
    assert_eq!(Path::Osd.buffer_span(&past_end), None);
    let at_end = Ebc { osd_offset: (MMAP_SIZE - frame_len) as i32, ..e };
    assert_eq!(Path::Osd.buffer_span(&at_end), Some((MMAP_SIZE - frame_len, frame_len)));
    let negative = Ebc { main_offset: -1, ..e };
    assert_eq!(Path::Main.buffer_span(&negative), None);
}

#[test]
fn for_refresh_sets_only_refresh_fields() {
    let i = EbcBufInfo::for_refresh(5, 12, 2480, 1860, hweink::ioctl::Rect::new(1, 2, 3, 4));
    assert_eq!((i.offset, i.epd_mode, i.width, i.height), (5, 12, 2480, 1860));
    assert_eq!((i.win_x1, i.win_y1, i.win_x2, i.win_y2), (1, 2, 3, 4));
    assert_eq!((i.panel_color, i.width_mm, i.height_mm, i.dropable, i.dma_buf_fd), (0, 0, 0, 0, 0));
    assert_eq!(i.tid_name, [0u8; 16]);
}

#[test]
fn surface_put_pixel_rotates_and_clips() {
    let e = device();
    let mut buf = frame();
    let mut s = Surface::new(&e, Path::Osd, &mut buf);
    assert_eq!((s.screen_w(), s.screen_h()), (SCREEN_W, SCREEN_H));
    s.put_pixel(0, 0, 0);
    s.put_pixel(1859, 2479, 7);
    s.put_pixel(-1, 0, 9);
    s.put_pixel(0, 2480, 9);
    drop(s);
    assert_eq!(buf[native_at(0, 0)], 0);
    assert_eq!(native_at(0, 0), 1859 * 2480);
    assert_eq!(buf[native_at(1859, 2479)], 7);
    assert_eq!(native_at(1859, 2479), 2479);
    assert_eq!(buf.iter().filter(|&&b| b != 0x11).count(), 2);
}

#[test]
fn surface_put_pixel_outside_short_buffer_is_ignored() {
    let e = device();
    let mut buf = vec![0x11u8; 100];
    let mut s = Surface::new(&e, Path::Main, &mut buf);
    s.put_pixel(1859, 5, 0);
    s.put_pixel(0, 0, 0);
    drop(s);
    assert_eq!(buf[5], 0);
    assert_eq!(buf.iter().filter(|&&b| b != 0x11).count(), 1);
}

#[test]
fn surface_fill_rect_and_clear() {
    let e = device();
    let mut buf = frame();
    let mut s = Surface::new(&e, Path::Osd, &mut buf);
    s.fill_rect(12, 8, 10, 5, 0);
    drop(s);
    let mut n = 0;
    for sx in 0..20 {
        for sy in 0..20 {
            let inside = sx >= 10 && sx < 12 && sy >= 5 && sy < 8;
            assert_eq!(buf[native_at(sx, sy)] == 0, inside);
            if inside {
                n += 1;
            }
        }
    }
    assert_eq!(n, 6);
    let mut s = Surface::new(&e, Path::Osd, &mut buf);
    s.clear(255);
    drop(s);
    assert!(buf.iter().all(|&b| b == 255));
}

#[test]
fn surface_refresh_request() {
    let e = device();
    let mut buf = frame();
    let s = Surface::new(&e, Path::Osd, &mut buf);
    let r = s.refresh(ScreenRect::new(100, 200, 300, 500), None);
    assert_eq!((r.fd, r.cmd), (7, EBC_SEND_OSD_BUFFER));
    match r.arg {
        IoctlArg::Info(i) => {
            assert_eq!(i.offset, 0x140_0000);
            assert_eq!(i.epd_mode, 1);
            assert_eq!((i.width, i.height), (BUF_W, BUF_H));
            assert_eq!((i.win_x1, i.win_y1, i.win_x2, i.win_y2), (200, 1560, 500, 1760));
        }
        _ => panic!("expected an info argument"),
    }
    let r = s.refresh(ScreenRect::new(-50, -50, 5000, 5000), Some(Mode::A2));
    match r.arg {
        IoctlArg::Info(i) => {
            assert_eq!(i.epd_mode, 12);
            assert_eq!((i.win_x1, i.win_y1, i.win_x2, i.win_y2), (0, 0, BUF_W, BUF_H));
        }
        _ => panic!("expected an info argument"),
    }
    let r = s.refresh_full(None);
    match r.arg {
        IoctlArg::Info(i) => assert_eq!((i.win_x1, i.win_y1, i.win_x2, i.win_y2), (0, 0, BUF_W, BUF_H)),
        _ => panic!("expected an info argument"),
    }
}

#[test]
fn main_path_refresh_uses_main_buffer_and_gc16() {
    let e = device();
    let mut buf = frame();
    let s = Surface::new(&e, Path::Main, &mut buf);
    let r = s.refresh_full(None);
    assert_eq!(r.cmd, EBC_SEND_BUFFER);
    match r.arg {
        IoctlArg::Info(i) => {
            assert_eq!(i.offset, 0xa0_0000);
            assert_eq!(i.epd_mode, 2);
        }
        _ => panic!("expected an info argument"),
    }
}

#[test]
fn shadow_buffer_is_lazy_and_kept() {
    let mut sb = ShadowBuffer::new();
    assert!(sb.buf.is_none());
    {
        let b = sb.get_mut(4);
        assert_eq!(b, &[0xFF; 4]);
        b[1] = 3;
    }
    assert_eq!(sb.get_mut(4), &[0xFF, 3, 0xFF, 0xFF]);
    assert_eq!(sb.get_mut(2), &[0xFF, 0xFF]);
}

#[test]
fn draw_scope_writes_shadow_and_flushes_once() {
    let e = device();
    let mut buf = frame();
    let mut s = Surface::new(&e, Path::Osd, &mut buf);
    let req;
    {
        let mut d = s.draw();
        assert_eq!(d.shadow.len(), SHADOW_BYTES);
        assert!(d.shadow.iter().all(|&b| b == 0xFF));
        assert!(d.dirty.is_none());
        d.fill_rect(100, 100, 103, 102, 0);
        d.put_pixel(200, 200, 9);
        d.put_pixel(-3, 5, 9);
        let dd = d.dirty.unwrap();
        assert_eq!((dd.x1, dd.y1, dd.x2, dd.y2), (100, 100, 201, 201));
        d.set_mode(Some(Mode::A2));
        req = d.flush();
        assert!(d.flushed);
        assert!(d.dirty.is_none());
        assert_eq!(d.flush().is_none(), true);
    }
    let r = req.expect("a refresh request");
    assert_eq!(r.cmd, EBC_SEND_OSD_BUFFER);
    match r.arg {
        IoctlArg::Info(i) => {
            assert_eq!(i.epd_mode, 12);
            let w = ScreenRect::new(100, 100, 201, 201).to_buf();
            assert_eq!((i.win_x1, i.win_y1, i.win_x2, i.win_y2), (w.x1, w.y1, w.x2, w.y2));
        }
        _ => panic!("expected an info argument"),
    }
    drop(s);
    assert_eq!(buf[native_at(100, 100)], 0);
    assert_eq!(buf[native_at(102, 101)], 0);
    assert_eq!(buf[native_at(200, 200)], 9);
    assert_eq!(buf[native_at(150, 150)], 0xFF);
    assert_eq!(buf[native_at(201, 200)], 0x11);
    assert_eq!(buf[native_at(99, 100)], 0x11);
}

#[test]
fn shadow_persists_across_scopes() {
    let e = device();
    let mut buf = frame();
    let mut s = Surface::new(&e, Path::Osd, &mut buf);
    {
        let mut d = s.draw();
        d.put_pixel(5, 6, 42);
        d.cancel();
        assert!(d.flush().is_none());
    }
    {
        let d = s.draw();
        assert_eq!(d.shadow[6 * SHADOW_STRIDE + 5], 42);
        assert!(d.dirty.is_none());
    }
    drop(s);
    assert!(buf.iter().all(|&b| b == 0x11));
}

#[test]
fn flush_after_flush_sends_new_writes() {
    let e = device();
    let mut buf = frame();
    let mut s = Surface::new(&e, Path::Osd, &mut buf);
    let mut d = s.draw();
    d.put_pixel(1, 1, 0);
    assert!(d.flush().is_some());
    d.put_pixel(2, 2, 0);
    let r = d.flush();
    assert!(r.is_some());
    drop(d);
    drop(s);
    assert_eq!(buf[native_at(2, 2)], 0);
}

#[test]
fn finish_flushes_only_an_open_unflushed_scope() {
    let e = device();
    let mut buf = frame();
    let mut s = Surface::new(&e, Path::Osd, &mut buf);
    {
        let mut d = s.draw();
        d.put_pixel(1, 1, 0);
        let r = d.finish().expect("a refresh request");
        assert_eq!(r.cmd, EBC_SEND_OSD_BUFFER);
        assert!(d.flushed);
        d.put_pixel(2, 2, 0);
        assert!(d.finish().is_none());
        assert!(d.dirty.is_some());
    }
    {
        let mut d = s.draw();
        d.put_pixel(3, 3, 0);
        d.cancel();
        assert!(d.finish().is_none());
    }
    drop(s);
    assert_eq!(buf[native_at(1, 1)], 0);
    assert_eq!(buf[native_at(2, 2)], 0x11);
    assert_eq!(buf[native_at(3, 3)], 0x11);
}

#[test]
fn flush_with_nothing_dirty_gives_no_request() {
    let e = device();
    let mut buf = frame();
    let mut s = Surface::new(&e, Path::Osd, &mut buf);
    let mut d = s.draw();
    d.put_pixel(5000, 5, 0);
    assert!(d.flush().is_none());
    assert!(d.flushed);
}

#[test]
fn put_pixels_later_wins_and_bounds_once() {
    let e = device();
    let mut buf = frame();
    let mut s = Surface::new(&e, Path::Osd, &mut buf);
    let mut d = s.draw();
    d.put_pixels(&[(10, 10, 1), (-5, 3, 2), (10, 10, 3), (20, 4, 4), (1860, 0, 5)]);
    assert_eq!(d.shadow[10 * SHADOW_STRIDE + 10], 3);
    assert_eq!(d.shadow[4 * SHADOW_STRIDE + 20], 4);
    let dd = d.dirty.unwrap();
    assert_eq!((dd.x1, dd.y1, dd.x2, dd.y2), (10, 4, 21, 11));
    d.put_pixels(&[]);
    d.put_pixels(&[(-1, -1, 0)]);
    let dd = d.dirty.unwrap();
    assert_eq!((dd.x1, dd.y1, dd.x2, dd.y2), (10, 4, 21, 11));
}

#[test]
fn blit_clips_to_screen() {
    let e = device();
    let mut buf = frame();
    let mut s = Surface::new(&e, Path::Osd, &mut buf);
    let mut d = s.draw();
    let img: Vec<u8> = (0..12).collect(); // 4 wide, 3 tall
    d.blit(&img, 4, 3, -1, -1);
    assert_eq!(d.shadow[0], 5);
    assert_eq!(d.shadow[1], 6);
    assert_eq!(d.shadow[2], 7);
    assert_eq!(d.shadow[SHADOW_STRIDE], 9);
    assert_eq!(d.shadow[SHADOW_STRIDE + 2], 11);
    assert_eq!(d.shadow[3], 0xFF);
    let dd = d.dirty.unwrap();
    assert_eq!((dd.x1, dd.y1, dd.x2, dd.y2), (0, 0, 3, 2));
    d.blit(&img, 4, 3, 1858, 2479);
    assert_eq!(d.shadow[2479 * SHADOW_STRIDE + 1858], 0);
    assert_eq!(d.shadow[2479 * SHADOW_STRIDE + 1859], 1);
    let dd = d.dirty.unwrap();
    assert_eq!((dd.x1, dd.y1, dd.x2, dd.y2), (0, 0, 1860, 2480));
}

#[test]
fn blit_ignores_short_or_empty_images() {
    let e = device();
    let mut buf = frame();
    let mut s = Surface::new(&e, Path::Osd, &mut buf);
    let mut d = s.draw();
    d.blit(&[1, 2, 3], 2, 2, 0, 0);
    d.blit(&[1, 2, 3], 0, 2, 0, 0);
    d.blit(&[1, 2, 3, 4], 2, 2, 1860, 0);
    d.blit(&[1, 2, 3, 4], 2, 2, -2, 0);
    assert!(d.dirty.is_none());
    assert!(d.shadow.iter().all(|&b| b == 0xFF));
}

#[test]
fn blit_wholly_off_screen_is_a_no_op() {
    let e = device();
    let mut buf = frame();
    let mut s = Surface::new(&e, Path::Osd, &mut buf);
    let mut d = s.draw();
    d.put_pixel(0, 0, 7);
    let before: Vec<u8> = d.shadow.to_vec();
    let corners = |r: Option<ScreenRect>| r.map(|q| (q.x1, q.y1, q.x2, q.y2));
    let dirty_before = corners(d.dirty);
    d.blit(&[0u8; 100], 10, 10, -20, 0);
    d.blit(&[0u8; 100], 10, 10, 0, -10);
    d.blit(&[0u8; 100], 10, 10, i32::MIN, i32::MIN);
    d.blit(&[0u8; 4], usize::MAX, 2, 0, 0);
    assert_eq!(corners(d.dirty), dirty_before);
    assert_eq!(dirty_before, Some((0, 0, 1, 1)));
    assert!(d.shadow.to_vec() == before);
    d.blit(&[0u8; 100], 10, 10, -9, 0);
    assert_eq!(d.shadow[0], 0);
    let dd = d.dirty.unwrap();
    assert_eq!((dd.x1, dd.y1, dd.x2, dd.y2), (0, 0, 1, 10));
}

#[test]
fn dirty_region_does_not_depend_on_order() {
    let e = device();
    let mut buf = frame();
    let mut s = Surface::new(&e, Path::Osd, &mut buf);
    let a = ScreenRect::new(-10, 40, 30, 50);
    let b = ScreenRect::new(100, 2500, 90, 7);
    let ab = {
        let mut d = s.draw();
        d.dirty_union(a);
        d.dirty_union(b);
        d.dirty_union(b);
        d.cancel();
        d.dirty.map(|q| (q.x1, q.y1, q.x2, q.y2))
    };
    let ba = {
        let mut d = s.draw();
        d.dirty_union(b);
        d.dirty_union(a);
        d.cancel();
        d.dirty.map(|q| (q.x1, q.y1, q.x2, q.y2))
    };
    assert_eq!(ab, ba);
    assert_eq!(ab, Some((0, 7, 100, 2480)));
}

#[test]
fn raw_shadow_and_dirty_union() {
    let e = device();
    let mut buf = frame();
    let mut s = Surface::new(&e, Path::Osd, &mut buf);
    let mut d = s.draw();
    {
        let (raw, stride) = d.raw_shadow_mut();
        assert_eq!(stride, 1860);
        raw[3 * stride + 4] = 0;
    }
    assert!(d.dirty.is_none());
    d.dirty_union(ScreenRect::new(10, 10, -5, 2));
    let dd = d.dirty.unwrap();
    assert_eq!((dd.x1, dd.y1, dd.x2, dd.y2), (0, 2, 10, 10));
    d.dirty_union(ScreenRect::new(5, 5, 5, 9));
    let dd = d.dirty.unwrap();
    assert_eq!((dd.x1, dd.y1, dd.x2, dd.y2), (0, 2, 10, 10));
    assert!(d.flush().is_some());
    drop(d);
    drop(s);
    assert_eq!(buf[native_at(4, 3)], 0);
}

#[test]
fn draw_with_flushes_on_return() {
    let e = device();
    let mut buf = frame();
    let mut s = Surface::new(&e, Path::Main, &mut buf);
    let (v, req) = s.draw_with(|d| {
        d.fill_rect(0, 0, 2, 2, 0);
        17
    });
    assert_eq!(v, 17);
    assert_eq!(req.unwrap().cmd, EBC_SEND_BUFFER);
    let (_, req) = s.draw_with(|d| {
        d.put_pixel(3, 3, 0);
        d.cancel();
    });
    assert!(req.is_none());
    {
        let d = s.draw();
        assert_eq!(d.shadow[SHADOW_STRIDE + 1], 0);
        assert_eq!(d.shadow[3 * SHADOW_STRIDE + 3], 0);
    }
    let (_, req) = s.draw_with(|_| ());
    assert!(req.is_none());
    drop(s);
    assert_eq!(buf[native_at(1, 1)], 0);
    assert_eq!(buf[native_at(3, 3)], 0x11);
}

#[test]
fn stamp_disk_puts_the_disk() {
    let e = device();
    let mut buf = frame();
    let mut s = Surface::new(&e, Path::Osd, &mut buf);
    let mut d = s.draw();
    stamp_disk(&mut d, 100, 100, 2, 0);
    let mut n = 0;
    for y in 95..106 {
        for x in 95..106 {
            let inside = (x - 100) * (x - 100) + (y - 100) * (y - 100) <= 4;
            assert_eq!(d.shadow[(y as usize) * SHADOW_STRIDE + x as usize] == 0, inside);
            if inside {
                n += 1;
            }
        }
    }
    assert_eq!(n, 13);
    let dd = d.dirty.unwrap();
    assert_eq!((dd.x1, dd.y1, dd.x2, dd.y2), (98, 98, 103, 103));
    stamp_disk(&mut d, 0, 0, 1, 5);
    assert_eq!(d.shadow[0], 5);
    stamp_disk(&mut d, 50, 50, -1, 5);
    assert_eq!(d.shadow[50 * SHADOW_STRIDE + 50], 0xFF);
    stamp_disk(&mut d, 50, 50, -46340, 5);
    assert_eq!(d.shadow[50 * SHADOW_STRIDE + 50], 0xFF);
    let dd = d.dirty.unwrap();
    assert_eq!((dd.x1, dd.y1, dd.x2, dd.y2), (0, 0, 103, 103));
}
