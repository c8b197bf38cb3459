//! Geometry: the 90-degree clockwise buffer-to-screen coordinate transform.
//!
//! The native EBC buffer is landscape 2480 x 1860 (width x height); the panel the
//! user sees is portrait 1860 x 2480. The controller rotates the buffer 90 degrees
//! clockwise on scan-out, so
//!
//! ```text
//! buffer(x, y)   ->  screen(sx, sy) = (BUF_H - 1 - y, x)
//! screen(sx, sy) ->  buffer(x, y)   = (sy, BUF_H - 1 - sx)
//! ```

use crate::ioctl::Rect;
use vstd::prelude::*;

verus! {

/// Native (landscape) buffer width in pixels.
pub const BUF_W: i32 = 2480;

/// Native (landscape) buffer height in pixels.
pub const BUF_H: i32 = 1860;

/// Screen (portrait) width the user sees.
pub const SCREEN_W: i32 = 1860;

/// Screen (portrait) height the user sees.
pub const SCREEN_H: i32 = 2480;

/// Screen point to buffer point: `(sx, sy) -> (sy, BUF_H - 1 - sx)`.
pub open spec fn spec_screen_to_buf(sx: int, sy: int) -> (int, int) {
    (sy, BUF_H - 1 - sx)
}

/// Buffer point to screen point: `(x, y) -> (BUF_H - 1 - y, x)`.
pub open spec fn spec_buf_to_screen(x: int, y: int) -> (int, int) {
    (BUF_H - 1 - y, x)
}

/// The point lies on the portrait screen.
pub open spec fn on_screen(sx: int, sy: int) -> bool {
    0 <= sx < SCREEN_W && 0 <= sy < SCREEN_H
}

/// The point lies inside the native landscape buffer.
pub open spec fn in_buffer(x: int, y: int) -> bool {
    0 <= x < BUF_W && 0 <= y < BUF_H
}

/// Convert a screen (portrait) coordinate to a native buffer (landscape) coordinate.
pub fn screen_to_buf(sx: i32, sy: i32) -> (r: (i32, i32))
    requires
        BUF_H - 1 - sx <= i32::MAX,
    ensures
        (r.0 as int, r.1 as int) == spec_screen_to_buf(sx as int, sy as int),
{
    (sy, BUF_H - 1 - sx)
}

/// Convert a native buffer (landscape) coordinate to a screen (portrait) coordinate.
pub fn buf_to_screen(x: i32, y: i32) -> (r: (i32, i32))
    requires
        BUF_H - 1 - y <= i32::MAX,
    ensures
        (r.0 as int, r.1 as int) == spec_buf_to_screen(x as int, y as int),
{
    (BUF_H - 1 - y, x)
}

/// Rotating a screen point into the buffer and back gives the same screen point,
/// and rotating a buffer point onto the screen and back gives the same buffer point.
pub proof fn lemma_rotation_roundtrip(a: int, b: int)
    ensures
        ({
            let (x, y) = spec_screen_to_buf(a, b);
            spec_buf_to_screen(x, y) == (a, b)
        }),
        ({
            let (sx, sy) = spec_buf_to_screen(a, b);
            spec_screen_to_buf(sx, sy) == (a, b)
        }),
{
}

/// The rotation maps the screen exactly onto the buffer: a screen point is on the
/// screen if and only if its buffer point is inside the buffer.
pub proof fn lemma_rotation_preserves_bounds(sx: int, sy: int)
    ensures
        on_screen(sx, sy) <==> ({
            let (x, y) = spec_screen_to_buf(sx, sy);
            in_buffer(x, y)
        }),
{
}

/// `v` limited to `[lo, hi]` (for `lo <= hi`).
pub open spec fn clamp(v: int, lo: int, hi: int) -> int {
    if v < lo { lo } else if v > hi { hi } else { v }
}

/// `v` limited to `[lo, hi]`.
pub fn clamp_i32(v: i32, lo: i32, hi: i32) -> (r: i32)
    requires
        lo <= hi,
    ensures
        r == clamp(v as int, lo as int, hi as int),
{
    if v < lo {
        lo
    } else if v > hi {
        hi
    } else {
        v
    }
}

/// Smaller of two integers.
pub open spec fn min_int(a: int, b: int) -> int {
    if a <= b { a } else { b }
}

/// Larger of two integers.
pub open spec fn max_int(a: int, b: int) -> int {
    if a <= b { b } else { a }
}

/// A screen-space (portrait) rectangle, half-open `[x1, x2) x [y1, y2)`.
#[derive(Clone, Copy, Debug, Default)]
pub struct ScreenRect {
    pub x1: i32,
    pub y1: i32,
    pub x2: i32,
    pub y2: i32,
}

impl ScreenRect {
    /// The point lies in the half-open rectangle, whatever order its corners are in.
    pub open spec fn covers(self, x: int, y: int) -> bool {
        &&& min_int(self.x1 as int, self.x2 as int) <= x < max_int(self.x1 as int, self.x2 as int)
        &&& min_int(self.y1 as int, self.y2 as int) <= y < max_int(self.y1 as int, self.y2 as int)
    }

    /// The rectangle with corners put in order and clipped to the screen:
    /// `[0, SCREEN_W] x [0, SCREEN_H]`.
    pub open spec fn on_screen_part(self) -> ScreenRect {
        ScreenRect {
            x1: clamp(min_int(self.x1 as int, self.x2 as int), 0, SCREEN_W as int) as i32,
            y1: clamp(min_int(self.y1 as int, self.y2 as int), 0, SCREEN_H as int) as i32,
            x2: clamp(max_int(self.x1 as int, self.x2 as int), 0, SCREEN_W as int) as i32,
            y2: clamp(max_int(self.y1 as int, self.y2 as int), 0, SCREEN_H as int) as i32,
        }
    }

    /// The clipped, ordered rectangle of `new(x1, y1, x2, y2)`, computed.
    pub fn clipped(x1: i32, y1: i32, x2: i32, y2: i32) -> (r: ScreenRect)
        ensures
            r == (ScreenRect { x1, y1, x2, y2 }).on_screen_part(),
            0 <= r.x1 <= r.x2 <= SCREEN_W,
            0 <= r.y1 <= r.y2 <= SCREEN_H,
    {
        let (lx, hx) = if x1 <= x2 { (x1, x2) } else { (x2, x1) };
        let (ly, hy) = if y1 <= y2 { (y1, y2) } else { (y2, y1) };
        ScreenRect {
            x1: clamp_i32(lx, 0, SCREEN_W),
            y1: clamp_i32(ly, 0, SCREEN_H),
            x2: clamp_i32(hx, 0, SCREEN_W),
            y2: clamp_i32(hy, 0, SCREEN_H),
        }
    }

    /// The rectangle with the given corners.
    pub fn new(x1: i32, y1: i32, x2: i32, y2: i32) -> (r: Self)
        ensures
            r == (ScreenRect { x1, y1, x2, y2 }),
    {
        ScreenRect { x1, y1, x2, y2 }
    }

    /// The whole screen: `[0, SCREEN_W) x [0, SCREEN_H)`.
    pub fn full() -> (r: Self)
        ensures
            r == (ScreenRect { x1: 0, y1: 0, x2: SCREEN_W, y2: SCREEN_H }),
    {
        ScreenRect { x1: 0, y1: 0, x2: SCREEN_W, y2: SCREEN_H }
    }

    /// The native buffer rectangle covering exactly the rotated pixels of this one.
    pub open spec fn spec_to_buf(self) -> Rect {
        let lo_x = min_int(self.x1 as int, self.x2 as int);
        let hi_x = max_int(self.x1 as int, self.x2 as int);
        Rect {
            x1: min_int(self.y1 as int, self.y2 as int) as i32,
            y1: (BUF_H - hi_x) as i32,
            x2: max_int(self.y1 as int, self.y2 as int) as i32,
            y2: (BUF_H - lo_x) as i32,
        }
    }

    /// Convert to a native buffer rectangle, normalized (`x1 <= x2`, `y1 <= y2`) and
    /// half-open: it holds the buffer point of every screen point of `self` and no other.
    pub fn to_buf(&self) -> (r: Rect)
        requires
            BUF_H - self.x1 <= i32::MAX,
            BUF_H - self.x2 <= i32::MAX,
        ensures
            r == self.spec_to_buf(),
            r.x1 <= r.x2,
            r.y1 <= r.y2,
    {
        let (lo_x, hi_x) = if self.x1 <= self.x2 { (self.x1, self.x2) } else { (self.x2, self.x1) };
        let (lo_y, hi_y) = if self.y1 <= self.y2 { (self.y1, self.y2) } else { (self.y2, self.y1) };
        Rect::new(lo_y, BUF_H - hi_x, hi_y, BUF_H - lo_x)
    }
}

/// The buffer rectangle of a screen rectangle holds exactly the rotated points of the
/// screen rectangle.
pub proof fn lemma_to_buf_exact(r: ScreenRect, sx: int, sy: int)
    requires
        BUF_H - r.x1 <= i32::MAX,
        BUF_H - r.x2 <= i32::MAX,
    ensures
        r.covers(sx, sy) <==> ({
            let (x, y) = spec_screen_to_buf(sx, sy);
            r.spec_to_buf().holds(x, y)
        }),
{
}

} // verus!
