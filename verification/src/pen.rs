//! Pen / stylus input ("pen_touch", `/dev/input/event2`).
//!
//! The pen reports native buffer coordinates (ABS_X 0..2480, ABS_Y 0..1860) and
//! pressure 0..1024; they are turned into screen (portrait) coordinates with the same
//! 90-degree clockwise transform as the buffer, so pen points and drawn pixels line
//! up. Tools and buttons come from key events; one pen event is synthesized per
//! `EV_SYN / SYN_REPORT` frame boundary.

use crate::geom::{buf_to_screen, spec_buf_to_screen, spec_screen_to_buf};
use vstd::prelude::*;

verus! {

pub const EV_SYN: u16 = 0x0000;
pub const EV_KEY: u16 = 0x0001;
pub const EV_ABS: u16 = 0x0003;

pub const ABS_X: u16 = 0x0000;
pub const ABS_Y: u16 = 0x0001;
pub const ABS_PRESSURE: u16 = 0x0018;

pub const BTN_TOUCH: u16 = 0x014a;
pub const BTN_TOOL_PEN: u16 = 0x0140;
pub const BTN_TOOL_RUBBER: u16 = 0x0141;
pub const BTN_TOOL_FINGER: u16 = 0x0145;
pub const BTN_STYLUS: u16 = 0x014b;
pub const BTN_STYLUS2: u16 = 0x014c;
pub const BTN_STYLUS3: u16 = 0x0149;

pub const SYN_REPORT: u16 = 0x0000;

/// Size in bytes of one kernel `struct input_event` on aarch64:
/// `tv_sec: i64, tv_usec: i64, type: u16, code: u16, value: i32`.
pub const INPUT_EVENT_SIZE: usize = 24;

/// Pen tool type.
#[derive(Clone, Copy, Debug, PartialEq, Eq, Structural, Default)]
pub enum Tool {
    /// No tool in proximity.
    #[default]
    NoTool,
    Pen,
    Eraser,
    Finger,
}

/// One pen event, synthesized per frame. Coordinates are screen (portrait), `-1`
/// until the pen has reported a position; `pressure` is the raw 0..1024 value.
#[derive(Clone, Copy, Debug, Default)]
pub struct PenEvent {
    /// Screen (portrait) X, or `-1`.
    pub x: i32,
    /// Screen (portrait) Y, or `-1`.
    pub y: i32,
    /// Pressure 0..1024.
    pub pressure: i32,
    pub tool: Tool,
    /// The tool is near the surface.
    pub in_proximity: bool,
    /// The tool touches the surface.
    pub touch: bool,
    /// Side button 1.
    pub stylus_btn: bool,
    /// Side button 2.
    pub stylus_btn2: bool,
    /// Side button 3.
    pub stylus_btn3: bool,
}

/// `v` limited to `[0, 1024]`.
pub open spec fn pressure_clamped(v: int) -> int {
    if v < 0 { 0 } else if v > 1024 { 1024 } else { v }
}

impl PenEvent {
    /// Pressure normalized to `0..1000` from the raw `0..1024`:
    /// `clamp(pressure, 0, 1024) * 1000 / 1025`.
    pub fn pressure_norm(&self) -> (r: u32)
        ensures
            r == pressure_clamped(self.pressure as int) * 1000 / 1025,
            r < 1000,
    {
        let p: i32 = if self.pressure < 0 {
            0
        } else if self.pressure > 1024 {
            1024
        } else {
            self.pressure
        };
        (p as u32 * 1000) / 1025
    }
}

/// One kernel input event.
#[derive(Clone, Copy, Debug)]
pub struct InputEvent {
    pub tv_sec: i64,
    pub tv_usec: i64,
    pub typ: u16,
    pub code: u16,
    pub value: i32,
}

/// Little-endian unsigned value of `n` bytes of `b` from `at`.
pub open spec fn le_value(b: Seq<u8>, at: int, n: nat) -> int
    decreases n,
{
    if n == 0 {
        0
    } else {
        b[at] + 256 * le_value(b, at + 1, (n - 1) as nat)
    }
}

/// The input event stored (little-endian, C layout) at byte `at` of `b`.
pub open spec fn decode_event(b: Seq<u8>, at: int) -> InputEvent {
    InputEvent {
        tv_sec: le_value(b, at, 8) as i64,
        tv_usec: le_value(b, at + 8, 8) as i64,
        typ: le_value(b, at + 16, 2) as u16,
        code: le_value(b, at + 18, 2) as u16,
        value: le_value(b, at + 20, 4) as i32,
    }
}

/// `256^n`.
pub open spec fn pow256(n: nat) -> int
    decreases n,
{
    if n == 0 { 1 } else { 256 * pow256((n - 1) as nat) }
}

/// An `n`-byte little-endian value is below `256^n`.
pub proof fn lemma_le_value_bound(b: Seq<u8>, at: int, n: nat)
    requires
        0 <= at,
        at + n <= b.len(),
    ensures
        0 <= le_value(b, at, n) < pow256(n),
    decreases n,
{
    if n > 0 {
        lemma_le_value_bound(b, at + 1, (n - 1) as nat);
        let rest = le_value(b, at + 1, (n - 1) as nat);
        let p = pow256((n - 1) as nat);
        assert(b[at] + 256 * rest < 256 * p) by (nonlinear_arith)
            requires 0 <= b[at] < 256, 0 <= rest < p;
    }
}

/// The `n`-byte little-endian value at `at` (`n <= 8`).
fn read_le(b: &[u8], at: usize, n: usize) -> (r: u64)
    requires
        n <= 8,
        at + n <= b@.len(),
    ensures
        r == le_value(b@, at as int, n as nat),
{
    proof {
        assert(pow256(8) == 0x1_0000_0000_0000_0000) by {
            reveal_with_fuel(pow256, 9);
        }
    }
    let _len = b.len();
    let mut v: u64 = 0;
    let mut k: usize = n;
    while k > 0
        invariant
            0 <= k <= n <= 8,
            at + n <= b@.len(),
            b@.len() <= usize::MAX,
            v == le_value(b@, at + k, (n - k) as nat),
            pow256(8) == 0x1_0000_0000_0000_0000,
        decreases k,
    {
        proof {
            lemma_le_value_bound(b@, at + k, (n - k) as nat);
            lemma_pow256_monotone((n - k) as nat, 7);
            assert(v * 256 + 255 < pow256(8)) by (nonlinear_arith)
                requires v < pow256((n - k) as nat), pow256((n - k) as nat) <= pow256(7), pow256(8) == 256 * pow256(7);
        }
        k = k - 1;
        v = v * 256 + b[at + k] as u64;
    }
    v
}

/// `256^n` grows with `n`.
pub proof fn lemma_pow256_monotone(m: nat, n: nat)
    requires
        m <= n,
    ensures
        1 <= pow256(m) <= pow256(n),
    decreases n,
{
    if n > 0 {
        if m < n {
            lemma_pow256_monotone(m, (n - 1) as nat);
        } else {
            lemma_pow256_monotone((m - 1) as nat, (n - 1) as nat);
        }
    }
}

impl InputEvent {
    /// The input event stored at byte `at` of `b` (little-endian, C layout, as the
    /// kernel writes it on aarch64).
    pub fn decode(b: &[u8], at: usize) -> (r: InputEvent)
        requires
            at + INPUT_EVENT_SIZE <= b@.len(),
        ensures
            r == decode_event(b@, at as int),
    {
        let _len = b.len();
        let sec = read_le(b, at, 8);
        let usec = read_le(b, at + 8, 8);
        let typ = read_le(b, at + 16, 2);
        let code = read_le(b, at + 18, 2);
        let value = read_le(b, at + 20, 4);
        proof {
            lemma_le_value_bound(b@, at + 16, 2);
            lemma_le_value_bound(b@, at + 18, 2);
            lemma_le_value_bound(b@, at + 20, 4);
            assert(pow256(2) == 65536) by {
                reveal_with_fuel(pow256, 3);
            }
            assert(pow256(4) == 0x1_0000_0000) by {
                reveal_with_fuel(pow256, 5);
            }
        }
        InputEvent {
            tv_sec: #[verifier::truncate] (sec as i64),
            tv_usec: #[verifier::truncate] (usec as i64),
            typ: typ as u16,
            code: code as u16,
            value: #[verifier::truncate] (value as i32),
        }
    }
}

/// Pen input state: the device descriptor and what the events so far have set.
#[derive(Clone, Copy, Debug)]
pub struct Pen {
    /// The evdev file descriptor.
    pub fd: i32,
    /// Last absolute X (native buffer coordinates).
    pub last_bx: i32,
    /// Last absolute Y (native buffer coordinates).
    pub last_by: i32,
    pub last_pressure: i32,
    pub tool: Tool,
    pub in_proximity: bool,
    pub touch: bool,
    pub s1: bool,
    pub s2: bool,
    pub s3: bool,
    /// An ABS_X or ABS_Y has been seen.
    pub have_xy: bool,
}

/// The tool after a proximity key for tool `t` goes down or up: down selects `t`; up
/// leaves no tool if `t` was the tool, else keeps the current one.
pub open spec fn tool_after(cur: Tool, down: bool, t: Tool) -> Tool {
    if down {
        t
    } else if cur == t {
        Tool::NoTool
    } else {
        cur
    }
}

/// The pen state after one input event.
pub open spec fn applied(p: Pen, ev: InputEvent) -> Pen {
    let down = ev.value != 0;
    if ev.typ == EV_ABS {
        if ev.code == ABS_X {
            Pen { last_bx: ev.value, have_xy: true, ..p }
        } else if ev.code == ABS_Y {
            Pen { last_by: ev.value, have_xy: true, ..p }
        } else if ev.code == ABS_PRESSURE {
            Pen { last_pressure: ev.value, ..p }
        } else {
            p
        }
    } else if ev.typ == EV_KEY {
        if ev.code == BTN_TOOL_PEN {
            Pen { in_proximity: down, tool: tool_after(p.tool, down, Tool::Pen), ..p }
        } else if ev.code == BTN_TOOL_RUBBER {
            Pen { in_proximity: down, tool: tool_after(p.tool, down, Tool::Eraser), ..p }
        } else if ev.code == BTN_TOOL_FINGER {
            Pen { in_proximity: down, tool: tool_after(p.tool, down, Tool::Finger), ..p }
        } else if ev.code == BTN_TOUCH {
            Pen { touch: down, ..p }
        } else if ev.code == BTN_STYLUS {
            Pen { s1: down, ..p }
        } else if ev.code == BTN_STYLUS2 {
            Pen { s2: down, ..p }
        } else if ev.code == BTN_STYLUS3 {
            Pen { s3: down, ..p }
        } else {
            p
        }
    } else {
        p
    }
}

/// The event a pen state reports: screen coordinates of the last native position
/// (rotated 90 degrees clockwise), or `(-1, -1)` before any position or while one of
/// the native coordinates is negative; pressure, tool and buttons as they stand.
pub open spec fn spec_snapshot(p: Pen) -> PenEvent {
    let (sx, sy) = if p.have_xy && p.last_bx >= 0 && p.last_by >= 0 {
        spec_buf_to_screen(p.last_bx as int, p.last_by as int)
    } else {
        (-1int, -1int)
    };
    PenEvent {
        x: sx as i32,
        y: sy as i32,
        pressure: p.last_pressure,
        tool: p.tool,
        in_proximity: p.in_proximity,
        touch: p.touch,
        stylus_btn: p.s1,
        stylus_btn2: p.s2,
        stylus_btn3: p.s3,
    }
}

/// Pen points and drawn pixels line up: the screen point a pen state reports is
/// drawn at exactly the native buffer point the pen reported.
pub proof fn lemma_pen_lines_up(p: Pen)
    requires
        p.have_xy,
        p.last_bx >= 0,
        p.last_by >= 0,
    ensures
        spec_screen_to_buf(spec_snapshot(p).x as int, spec_snapshot(p).y as int) == (p.last_bx as int, p.last_by as int),
{
}

/// What a key event does to the pen: `BTN_TOUCH` sets whether the tip touches,
/// `BTN_STYLUS`, `BTN_STYLUS2` and `BTN_STYLUS3` set side buttons 1, 2 and 3, each to
/// whether the key is down (`value != 0`), whatever it was before, and nothing else
/// changes. A tool key (`BTN_TOOL_PEN`, `BTN_TOOL_RUBBER`, `BTN_TOOL_FINGER`) sets
/// proximity to whether it is down; down selects its tool, up drops its tool when
/// that tool was selected and keeps any other. Other keys change nothing.
pub proof fn lemma_key_events(p: Pen, ev: InputEvent)
    requires
        ev.typ == EV_KEY,
    ensures
        ({
            let q = applied(p, ev);
            let down = ev.value != 0;
            &&& ev.code == BTN_TOUCH ==> q == Pen { touch: down, ..p }
            &&& ev.code == BTN_STYLUS ==> q == Pen { s1: down, ..p }
            &&& ev.code == BTN_STYLUS2 ==> q == Pen { s2: down, ..p }
            &&& ev.code == BTN_STYLUS3 ==> q == Pen { s3: down, ..p }
            &&& ev.code == BTN_TOOL_PEN ==> q == Pen {
                in_proximity: down,
                tool: if down { Tool::Pen } else if p.tool == Tool::Pen { Tool::NoTool } else { p.tool },
                ..p
            }
            &&& ev.code == BTN_TOOL_RUBBER ==> q == Pen {
                in_proximity: down,
                tool: if down { Tool::Eraser } else if p.tool == Tool::Eraser { Tool::NoTool } else { p.tool },
                ..p
            }
            &&& ev.code == BTN_TOOL_FINGER ==> q == Pen {
                in_proximity: down,
                tool: if down { Tool::Finger } else if p.tool == Tool::Finger { Tool::NoTool } else { p.tool },
                ..p
            }
            &&& (ev.code != BTN_TOUCH && ev.code != BTN_STYLUS && ev.code != BTN_STYLUS2
                && ev.code != BTN_STYLUS3 && ev.code != BTN_TOOL_PEN && ev.code != BTN_TOOL_RUBBER
                && ev.code != BTN_TOOL_FINGER) ==> q == p
        }),
{
}

/// What an absolute event does to the pen: `ABS_X` and `ABS_Y` record the native
/// coordinate and that a position is known, `ABS_PRESSURE` records the pressure;
/// nothing else changes. Other absolute axes, and events that are neither keys nor
/// absolute (frame ends among them), change nothing.
pub proof fn lemma_abs_and_other_events(p: Pen, ev: InputEvent)
    ensures
        ({
            let q = applied(p, ev);
            &&& ev.typ == EV_ABS && ev.code == ABS_X ==> q == Pen { last_bx: ev.value, have_xy: true, ..p }
            &&& ev.typ == EV_ABS && ev.code == ABS_Y ==> q == Pen { last_by: ev.value, have_xy: true, ..p }
            &&& ev.typ == EV_ABS && ev.code == ABS_PRESSURE ==> q == Pen { last_pressure: ev.value, ..p }
            &&& ev.typ == EV_ABS && ev.code != ABS_X && ev.code != ABS_Y && ev.code != ABS_PRESSURE ==> q == p
            &&& ev.typ != EV_ABS && ev.typ != EV_KEY ==> q == p
        }),
{
}

/// The event a pen reports carries the pen's pressure, tool, proximity, touch and
/// side buttons 1, 2 and 3 as they stand; its position is `(-1, -1)` until a
/// position is known or while a native coordinate is negative (where it lies
/// otherwise is [`lemma_pen_lines_up`]).
pub proof fn lemma_snapshot_fields(p: Pen)
    ensures
        ({
            let e = spec_snapshot(p);
            &&& e.pressure == p.last_pressure
            &&& e.tool == p.tool
            &&& e.in_proximity == p.in_proximity
            &&& e.touch == p.touch
            &&& e.stylus_btn == p.s1
            &&& e.stylus_btn2 == p.s2
            &&& e.stylus_btn3 == p.s3
            &&& !p.have_xy ==> e.x == -1 && e.y == -1
            &&& (p.last_bx < 0 || p.last_by < 0) ==> e.x == -1 && e.y == -1
        }),
{
}

/// The pen state after applying `evs` in order.
pub open spec fn applied_all(p: Pen, evs: Seq<InputEvent>) -> Pen
    decreases evs.len(),
{
    if evs.len() == 0 {
        p
    } else {
        applied_all(applied(p, evs[0]), evs.drop_first())
    }
}

/// Feeding one frame (events with a frame end last and none before it) applies every
/// event of the frame, the frame end included, and reports the state reached;
/// feeding events with no frame end applies them all and reports nothing.
pub proof fn lemma_feed_frame(p: Pen, evs: Seq<InputEvent>)
    requires
        forall|k: int| 0 <= k < evs.len() - 1 ==> !is_frame_end(#[trigger] evs[k]),
    ensures
        evs.len() > 0 && is_frame_end(evs.last())
            ==> fed(p, evs) == (applied_all(p, evs), Some(spec_snapshot(applied_all(p, evs)))),
        (forall|k: int| 0 <= k < evs.len() ==> !is_frame_end(#[trigger] evs[k]))
            ==> fed(p, evs) == (applied_all(p, evs), None::<PenEvent>),
    decreases evs.len(),
{
    if evs.len() > 0 {
        let q = applied(p, evs[0]);
        let rest = evs.drop_first();
        assert forall|k: int| 0 <= k < rest.len() - 1 implies !is_frame_end(#[trigger] rest[k]) by {
            assert(rest[k] == evs[k + 1]);
        }
        lemma_feed_frame(q, rest);
        if evs.len() == 1 {
            assert(rest.len() == 0);
        } else {
            assert(!is_frame_end(evs[0]));
            if forall|k: int| 0 <= k < evs.len() ==> !is_frame_end(#[trigger] evs[k]) {
                assert forall|k: int| 0 <= k < rest.len() implies !is_frame_end(#[trigger] rest[k]) by {
                    assert(rest[k] == evs[k + 1]);
                }
            }
            assert(evs.last() == rest.last());
        }
    }
}

/// The event closes a frame (`EV_SYN / SYN_REPORT`).
pub open spec fn is_frame_end(ev: InputEvent) -> bool {
    ev.typ == EV_SYN && ev.code == SYN_REPORT
}

/// The pen state and reported event after applying `evs` in order up to and
/// including the first frame end: the event is `None` when no frame end came.
pub open spec fn fed(p: Pen, evs: Seq<InputEvent>) -> (Pen, Option<PenEvent>)
    decreases evs.len(),
{
    if evs.len() == 0 {
        (p, None)
    } else {
        let q = applied(p, evs[0]);
        if is_frame_end(evs[0]) {
            (q, Some(spec_snapshot(q)))
        } else {
            fed(q, evs.drop_first())
        }
    }
}

/// The whole input events held in a read buffer, in order.
pub open spec fn events_in(b: Seq<u8>) -> Seq<InputEvent> {
    Seq::new(b.len() / (INPUT_EVENT_SIZE as nat), |k: int| decode_event(b, k * INPUT_EVENT_SIZE))
}

impl Pen {
    /// A pen on descriptor `fd` that has seen no event: no position (`-1`), no
    /// pressure, no tool, nothing pressed.
    pub fn from_fd(fd: i32) -> (r: Pen)
        ensures
            r == (Pen {
                fd,
                last_bx: -1i32,
                last_by: -1i32,
                last_pressure: 0i32,
                tool: Tool::NoTool,
                in_proximity: false,
                touch: false,
                s1: false,
                s2: false,
                s3: false,
                have_xy: false,
            }),
    {
        Pen {
            fd,
            last_bx: -1,
            last_by: -1,
            last_pressure: 0,
            tool: Tool::NoTool,
            in_proximity: false,
            touch: false,
            s1: false,
            s2: false,
            s3: false,
            have_xy: false,
        }
    }

    /// The raw evdev file descriptor, to register in an outside event loop.
    pub fn fd(&self) -> (r: i32)
        ensures
            r == self.fd,
    {
        self.fd
    }

    /// Apply one input event to the pen state.
    pub fn apply(&mut self, ev: &InputEvent)
        ensures
            *final(self) == applied(*old(self), *ev),
    {
        if ev.typ == EV_ABS {
            if ev.code == ABS_X {
                self.last_bx = ev.value;
                self.have_xy = true;
            } else if ev.code == ABS_Y {
                self.last_by = ev.value;
                self.have_xy = true;
            } else if ev.code == ABS_PRESSURE {
                self.last_pressure = ev.value;
            }
        } else if ev.typ == EV_KEY {
            let down = ev.value != 0;
            if ev.code == BTN_TOOL_PEN {
                self.in_proximity = down;
                if down {
                    self.tool = Tool::Pen;
                } else if self.tool == Tool::Pen {
                    self.tool = Tool::NoTool;
                }
            } else if ev.code == BTN_TOOL_RUBBER {
                self.in_proximity = down;
                if down {
                    self.tool = Tool::Eraser;
                } else if self.tool == Tool::Eraser {
                    self.tool = Tool::NoTool;
                }
            } else if ev.code == BTN_TOOL_FINGER {
                self.in_proximity = down;
                if down {
                    self.tool = Tool::Finger;
                } else if self.tool == Tool::Finger {
                    self.tool = Tool::NoTool;
                }
            } else if ev.code == BTN_TOUCH {
                self.touch = down;
            } else if ev.code == BTN_STYLUS {
                self.s1 = down;
            } else if ev.code == BTN_STYLUS2 {
                self.s2 = down;
            } else if ev.code == BTN_STYLUS3 {
                self.s3 = down;
            }
        }
    }

    /// The event the current state reports.
    pub fn snapshot(&self) -> (r: PenEvent)
        ensures
            r == spec_snapshot(*self),
    {
        let (sx, sy) = if self.have_xy && self.last_bx >= 0 && self.last_by >= 0 {
            buf_to_screen(self.last_bx, self.last_by)
        } else {
            (-1, -1)
        };
        PenEvent {
            x: sx,
            y: sy,
            pressure: self.last_pressure,
            tool: self.tool,
            in_proximity: self.in_proximity,
            touch: self.touch,
            stylus_btn: self.s1,
            stylus_btn2: self.s2,
            stylus_btn3: self.s3,
        }
    }

    /// Apply the input events in a read buffer in order, up to the first frame end,
    /// and report the event of that frame (`None` when the buffer holds no frame end;
    /// events after the frame end are not applied).
    pub fn feed(&mut self, bytes: &[u8]) -> (r: Option<PenEvent>)
        ensures
            (*final(self), r) == fed(*old(self), events_in(bytes@)),
    {
        let count = bytes.len() / INPUT_EVENT_SIZE;
        let ghost evs = events_in(bytes@);
        proof {
            assert(evs.skip(0) =~= evs);
        }
        let mut i: usize = 0;
        while i < count
            invariant
                count == evs.len(),
                evs == events_in(bytes@),
                bytes@.len() <= usize::MAX,
                0 <= i <= count,
                fed(*old(self), evs) == fed(*self, evs.skip(i as int)),
            decreases count - i,
        {
            proof {
                assert(i * INPUT_EVENT_SIZE + INPUT_EVENT_SIZE <= bytes@.len()) by (nonlinear_arith)
                    requires i < count, count == (bytes@.len() as int) / 24, INPUT_EVENT_SIZE == 24;
            }
            let ev = InputEvent::decode(bytes, i * INPUT_EVENT_SIZE);
            proof {
                assert(evs.skip(i as int)[0] == ev);
                assert(evs.skip(i as int).drop_first() =~= evs.skip(i + 1));
            }
            self.apply(&ev);
            if ev.typ == EV_SYN && ev.code == SYN_REPORT {
                return Some(self.snapshot());
            }
            i = i + 1;
        }
        proof {
            assert(evs.skip(i as int) =~= Seq::<InputEvent>::empty());
        }
        None
    }
}

} // verus!
