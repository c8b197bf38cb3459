use hweink::pen::{
    InputEvent, Pen, PenEvent, Tool, ABS_PRESSURE, ABS_X, ABS_Y, BTN_STYLUS, BTN_STYLUS2,
    BTN_STYLUS3, BTN_TOOL_FINGER, BTN_TOOL_PEN, BTN_TOOL_RUBBER, BTN_TOUCH, EV_ABS, EV_KEY,
    EV_SYN, INPUT_EVENT_SIZE, SYN_REPORT,
};

fn ev(typ: u16, code: u16, value: i32) -> Vec<u8> {
    let mut b = Vec::new();
    b.extend_from_slice(&1_700_000_000i64.to_le_bytes());
    b.extend_from_slice(&123_456i64.to_le_bytes());
    b.extend_from_slice(&typ.to_le_bytes());
    b.extend_from_slice(&code.to_le_bytes());
    b.extend_from_slice(&value.to_le_bytes());
    b
}

fn frame(evs: &[(u16, u16, i32)]) -> Vec<u8> {
    let mut b = Vec::new();
    for &(t, c, v) in evs {
        b.extend(ev(t, c, v));
    }
    b
}

#[test]
fn input_event_size_is_24() {
    // aarch64: 8 + 8 + 2 + 2 + 4 = 24
    assert_eq!(INPUT_EVENT_SIZE, 24);
    assert_eq!(std::mem::size_of::<InputEvent>(), 24);
}

#[test]
fn decode_reads_little_endian_fields() {
    let b = ev(EV_ABS, ABS_PRESSURE, -7);
    let e = InputEvent::decode(&b, 0);
    assert_eq!(e.tv_sec, 1_700_000_000);
    assert_eq!(e.tv_usec, 123_456);
    assert_eq!((e.typ, e.code, e.value), (EV_ABS, ABS_PRESSURE, -7));
    let mut two = vec![0u8; 3];
    two.extend(ev(EV_KEY, BTN_TOUCH, 1));
    let e = InputEvent::decode(&two, 3);
    assert_eq!((e.typ, e.code, e.value), (EV_KEY, BTN_TOUCH, 1));
}

#[test]
fn pen_starts_empty() {
    let p = Pen::from_fd(9);
    assert_eq!(p.fd(), 9);
    let s = p.snapshot();
    assert_eq!((s.x, s.y, s.pressure), (-1, -1, 0));
    assert_eq!(s.tool, Tool::NoTool);
    assert!(!s.touch && !s.in_proximity && !s.stylus_btn);
}

#[test]
fn frame_reports_screen_coordinates() {
    let mut p = Pen::from_fd(3);
    let b = frame(&[
        (EV_KEY, BTN_TOOL_PEN, 1),
        (EV_ABS, ABS_X, 0),
        (EV_ABS, ABS_Y, 0),
        (EV_ABS, ABS_PRESSURE, 512),
        (EV_KEY, BTN_TOUCH, 1),
        (EV_SYN, SYN_REPORT, 0),
    ]);
    let e = p.feed(&b).expect("a frame");
    // native (0, 0) is the screen's top-right corner
    assert_eq!((e.x, e.y), (1859, 0));
    assert_eq!(e.pressure, 512);
    assert_eq!(e.tool, Tool::Pen);
    assert!(e.in_proximity && e.touch);
    let b = frame(&[(EV_ABS, ABS_X, 2479), (EV_ABS, ABS_Y, 1859), (EV_SYN, SYN_REPORT, 0)]);
    let e = p.feed(&b).unwrap();
    assert_eq!((e.x, e.y), (0, 2479));
}

#[test]
fn partial_frame_reports_nothing_but_keeps_state() {
    let mut p = Pen::from_fd(3);
    assert!(p.feed(&frame(&[(EV_ABS, ABS_X, 100)])).is_none());
    assert!(p.feed(&[1, 2, 3]).is_none());
    let e = p.feed(&frame(&[(EV_ABS, ABS_Y, 200), (EV_SYN, SYN_REPORT, 0)])).unwrap();
    assert_eq!((e.x, e.y), (1859 - 200, 100));
}

#[test]
fn events_after_the_frame_end_are_not_applied() {
    let mut p = Pen::from_fd(3);
    let b = frame(&[(EV_KEY, BTN_TOUCH, 1), (EV_SYN, SYN_REPORT, 0), (EV_KEY, BTN_TOUCH, 0)]);
    let e = p.feed(&b).unwrap();
    assert!(e.touch);
    assert!(p.touch);
}

#[test]
fn tools_and_buttons() {
    let mut p = Pen::from_fd(3);
    let e = p
        .feed(&frame(&[
            (EV_KEY, BTN_TOOL_RUBBER, 1),
            (EV_KEY, BTN_STYLUS, 1),
            (EV_KEY, BTN_STYLUS2, 1),
            (EV_KEY, BTN_STYLUS3, 1),
            (EV_SYN, SYN_REPORT, 0),
        ]))
        .unwrap();
    assert_eq!(e.tool, Tool::Eraser);
    assert!(e.stylus_btn && e.stylus_btn2 && e.stylus_btn3);
    // releasing another tool keeps the eraser but drops proximity
    let e = p.feed(&frame(&[(EV_KEY, BTN_TOOL_PEN, 0), (EV_SYN, SYN_REPORT, 0)])).unwrap();
    assert_eq!(e.tool, Tool::Eraser);
    assert!(!e.in_proximity);
    let e = p.feed(&frame(&[(EV_KEY, BTN_TOOL_RUBBER, 0), (EV_SYN, SYN_REPORT, 0)])).unwrap();
    assert_eq!(e.tool, Tool::NoTool);
    let e = p.feed(&frame(&[(EV_KEY, BTN_TOOL_FINGER, 1), (EV_SYN, SYN_REPORT, 0)])).unwrap();
    assert_eq!(e.tool, Tool::Finger);
    assert!(e.in_proximity);
}

#[test]
fn negative_position_reports_no_coordinates() {
    let mut p = Pen::from_fd(3);
    let e = p.feed(&frame(&[(EV_ABS, ABS_X, -5), (EV_ABS, ABS_Y, 10), (EV_SYN, SYN_REPORT, 0)])).unwrap();
    assert_eq!((e.x, e.y), (-1, -1));
}

#[test]
fn apply_ignores_other_events() {
    let mut p = Pen::from_fd(3);
    let before = p.snapshot();
    p.apply(&InputEvent { tv_sec: 0, tv_usec: 0, typ: 4, code: ABS_X, value: 5 });
    p.apply(&InputEvent { tv_sec: 0, tv_usec: 0, typ: EV_ABS, code: 0x2f, value: 5 });
    p.apply(&InputEvent { tv_sec: 0, tv_usec: 0, typ: EV_KEY, code: 0x2e8, value: 1 });
    let after = p.snapshot();
    assert_eq!((before.x, before.y, before.pressure), (after.x, after.y, after.pressure));
    assert!(!p.have_xy);
}

#[test]
fn pressure_norm_values() {
    let mut e = PenEvent::default();
    for (raw, want) in [(0, 0), (1024, 999), (512, 499), (2000, 999), (-3, 0), (1025, 999), (1, 0), (2, 1)] {
        e.pressure = raw;
        assert_eq!(e.pressure_norm(), want, "raw {}", raw);
    }
}

#[test]
fn pen_points_line_up_with_drawn_pixels() {
    let mut p = Pen::from_fd(3);
    for &(bx, by) in &[(0, 0), (2479, 1859), (1000, 37)] {
        let e = p
            .feed(&frame(&[(EV_ABS, ABS_X, bx), (EV_ABS, ABS_Y, by), (EV_SYN, SYN_REPORT, 0)]))
            .unwrap();
        assert_eq!(hweink::geom::screen_to_buf(e.x, e.y), (bx, by));
    }
}
