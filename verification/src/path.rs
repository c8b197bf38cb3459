//! Render paths: the OSD overlay (coexists with the Android UI) and the main buffer
//! (exclusive full-screen takeover), and the surface that draws on one of them.
//! Both paths take 8bpp Y8 pixels, written with the 90-degree clockwise
//! screen-to-buffer rotation.

use crate::ebc::Ebc;
use crate::geom::{clamp, clamp_i32, on_screen, spec_screen_to_buf, ScreenRect, BUF_H, BUF_W, SCREEN_H, SCREEN_W};
use crate::ioctl::{
    EbcBufInfo, IoctlArg, IoctlRequest, Rect, EBC_DISABLE_OVERLAY, EBC_ENABLE_OVERLAY,
    EBC_SEND_BUFFER, EBC_SEND_OSD_BUFFER, EBC_SET_FB_BLANK, EBC_SET_FB_UNBLANK,
};
use crate::mode::Mode;
use vstd::prelude::*;

verus! {

/// Which display path to drive.
#[derive(Clone, Copy, Debug, PartialEq, Eq, Structural)]
pub enum Path {
    /// OSD overlay layer, above the Android UI; screencap cannot capture it.
    /// Enabled with `ENABLE_OVERLAY`, refreshed with `SEND_OSD_BUFFER`, closed with
    /// `DISABLE_OVERLAY`.
    Osd,
    /// Main display buffer, taken over by blanking the HWC with `SET_FB_BLANK`,
    /// refreshed with `SEND_BUFFER`, given back with `SET_FB_UNBLANK`.
    Main,
}

impl Path {
    /// Offset of this path's buffer in the device mapping.
    pub fn buffer_offset(self, ebc: &Ebc) -> (r: i32)
        ensures
            r == (match self {
                Path::Osd => ebc.osd_offset,
                Path::Main => ebc.main_offset,
            }),
    {
        match self {
            Path::Osd => ebc.osd_offset,
            Path::Main => ebc.main_offset,
        }
    }

    /// Where this path's buffer lies in the device mapping, as `(offset, length)`:
    /// one full frame (`stride * height` bytes) at the path's offset, when the device
    /// is mapped and that frame lies wholly inside the mapping; `None` otherwise (the
    /// surface then draws into an empty buffer).
    pub fn buffer_span(self, ebc: &Ebc) -> (r: Option<(usize, usize)>)
        ensures
            ({
                let off = match self {
                    Path::Osd => ebc.osd_offset,
                    Path::Main => ebc.main_offset,
                };
                let len = ebc.spec_stride() * (ebc.height as usize);
                if ebc.map_addr != 0 && off >= 0 && off + len <= ebc.map_len {
                    r == Some((off as usize, len as usize))
                } else {
                    r is None
                }
            }),
    {
        let off = self.buffer_offset(ebc);
        if ebc.map_base() == 0 || off < 0 {
            return None;
        }
        let len = match ebc.stride().checked_mul(ebc.height as usize) {
            Some(n) => n,
            None => return None,
        };
        let off = off as usize;
        if len > ebc.map_len() || off > ebc.map_len() - len {
            return None;
        }
        Some((off, len))
    }

    /// The request that enables this path (`ENABLE_OVERLAY` / `SET_FB_BLANK`).
    pub fn enable(self, ebc: &Ebc) -> (r: IoctlRequest)
        ensures
            r == (IoctlRequest {
                fd: ebc.fd,
                cmd: match self {
                    Path::Osd => EBC_ENABLE_OVERLAY,
                    Path::Main => EBC_SET_FB_BLANK,
                },
                arg: IoctlArg::NoArg,
            }),
    {
        match self {
            Path::Osd => ebc.ioctl0(EBC_ENABLE_OVERLAY),
            Path::Main => ebc.ioctl0(EBC_SET_FB_BLANK),
        }
    }

    /// The request that disables this path (`DISABLE_OVERLAY` / `SET_FB_UNBLANK`).
    pub fn disable(self, ebc: &Ebc) -> (r: IoctlRequest)
        ensures
            r == (IoctlRequest {
                fd: ebc.fd,
                cmd: match self {
                    Path::Osd => EBC_DISABLE_OVERLAY,
                    Path::Main => EBC_SET_FB_UNBLANK,
                },
                arg: IoctlArg::NoArg,
            }),
    {
        match self {
            Path::Osd => ebc.ioctl0(EBC_DISABLE_OVERLAY),
            Path::Main => ebc.ioctl0(EBC_SET_FB_UNBLANK),
        }
    }

    /// The request code that refreshes this path.
    pub open spec fn spec_send_cmd(self) -> u32 {
        match self {
            Path::Osd => EBC_SEND_OSD_BUFFER,
            Path::Main => EBC_SEND_BUFFER,
        }
    }

    /// The request code that refreshes this path.
    pub fn send_cmd(self) -> (r: u32)
        ensures
            r == self.spec_send_cmd(),
    {
        match self {
            Path::Osd => EBC_SEND_OSD_BUFFER,
            Path::Main => EBC_SEND_BUFFER,
        }
    }

    /// The waveform used when a refresh names none.
    pub open spec fn spec_default_mode(self) -> Mode {
        match self {
            Path::Osd => Mode::Overlay,
            Path::Main => Mode::FullGc16,
        }
    }

    /// The waveform used when a refresh names none: OVERLAY on the OSD path,
    /// FULL_GC16 on the main path.
    pub fn default_mode(self) -> (r: Mode)
        ensures
            r == self.spec_default_mode(),
    {
        match self {
            Path::Osd => Mode::Overlay,
            Path::Main => Mode::FullGc16,
        }
    }
}

/// Index in the native buffer of the screen pixel `(sx, sy)`: the buffer point is
/// `(sy, BUF_H - 1 - sx)`, rows are `stride` bytes long.
pub open spec fn native_index(stride: int, sx: int, sy: int) -> int {
    (BUF_H - 1 - sx) * stride + sy
}

/// The surface writes a screen pixel where the rotation puts it: at row `by`,
/// column `bx` of the native buffer, `(bx, by)` being the buffer point of the screen
/// point; an on-screen pixel lands on the panel. With rows at least `BUF_W` bytes
/// long, two on-screen pixels never share a native index.
pub proof fn lemma_native_index_rotates(stride: int, sx: int, sy: int, tx: int, ty: int)
    ensures
        native_index(stride, sx, sy) == spec_screen_to_buf(sx, sy).1 * stride + spec_screen_to_buf(sx, sy).0,
        on_screen(sx, sy) ==> 0 <= spec_screen_to_buf(sx, sy).0 < BUF_W && 0 <= spec_screen_to_buf(sx, sy).1 < BUF_H,
        stride >= BUF_W && on_screen(sx, sy) && on_screen(tx, ty) && native_index(stride, sx, sy) == native_index(stride, tx, ty)
            ==> sx == tx && sy == ty,
{
    if stride >= BUF_W && on_screen(sx, sy) && on_screen(tx, ty) && native_index(stride, sx, sy) == native_index(stride, tx, ty) {
        let a = BUF_H - 1 - sx;
        let b = BUF_H - 1 - tx;
        assert(a == b) by (nonlinear_arith)
            requires
                a * stride + sy == b * stride + ty,
                0 <= sy < stride,
                0 <= ty < stride,
                0 <= a,
                0 <= b;
    }
}

/// The native index of `(sx, sy)` can be computed in a `usize`.
pub open spec fn index_fits(stride: int, sx: int, sy: int) -> bool {
    native_index(stride, sx, sy) <= usize::MAX
}

/// The native buffer after writing gray `g` at screen pixel `(x, y)`: only a pixel on
/// the screen whose index lies inside the buffer is written.
pub open spec fn pixel_written(buf: Seq<u8>, stride: int, x: int, y: int, g: u8) -> Seq<u8> {
    let j = native_index(stride, x, y);
    if on_screen(x, y) && 0 <= j < buf.len() {
        buf.update(j, g)
    } else {
        buf
    }
}

/// Some screen pixel of `[x1, x2) x [y1, y2)` has native index `j`.
pub open spec fn hit(stride: int, x1: int, x2: int, y1: int, y2: int, j: int) -> bool {
    exists|x: int, y: int| x1 <= x < x2 && y1 <= y < y2 && #[trigger] native_index(stride, x, y) == j
}

/// Extending a row of pixels by the pixel `(x, y)` adds exactly its index.
pub proof fn lemma_hit_extend_col(stride: int, x1: int, x: int, y: int, j: int)
    requires
        x1 <= x,
    ensures
        hit(stride, x1, x + 1, y, y + 1, j) <==> (hit(stride, x1, x, y, y + 1, j) || native_index(stride, x, y) == j),
{
    if hit(stride, x1, x + 1, y, y + 1, j) {
        let (a, b) = choose|a: int, b: int| x1 <= a < x + 1 && y <= b < y + 1 && #[trigger] native_index(stride, a, b) == j;
        if a < x {
            assert(x1 <= a < x && y <= b < y + 1 && native_index(stride, a, b) == j);
        }
    }
    if hit(stride, x1, x, y, y + 1, j) {
        let (a, b) = choose|a: int, b: int| x1 <= a < x && y <= b < y + 1 && #[trigger] native_index(stride, a, b) == j;
        assert(x1 <= a < x + 1 && y <= b < y + 1 && native_index(stride, a, b) == j);
    }
    if native_index(stride, x, y) == j {
        assert(x1 <= x < x + 1 && y <= y < y + 1 && native_index(stride, x, y) == j);
    }
}

/// The rows `[y1, y)` and the row `y` together are the rows `[y1, y + 1)`.
pub proof fn lemma_hit_extend_row(stride: int, x1: int, x2: int, y1: int, y: int, j: int)
    requires
        y1 <= y,
    ensures
        hit(stride, x1, x2, y1, y + 1, j) <==> (hit(stride, x1, x2, y1, y, j) || hit(stride, x1, x2, y, y + 1, j)),
{
    if hit(stride, x1, x2, y1, y + 1, j) {
        let (a, b) = choose|a: int, b: int| x1 <= a < x2 && y1 <= b < y + 1 && #[trigger] native_index(stride, a, b) == j;
        if b < y {
            assert(x1 <= a < x2 && y1 <= b < y && native_index(stride, a, b) == j);
        } else {
            assert(x1 <= a < x2 && y <= b < y + 1 && native_index(stride, a, b) == j);
        }
    }
    if hit(stride, x1, x2, y1, y, j) {
        let (a, b) = choose|a: int, b: int| x1 <= a < x2 && y1 <= b < y && #[trigger] native_index(stride, a, b) == j;
        assert(x1 <= a < x2 && y1 <= b < y + 1 && native_index(stride, a, b) == j);
    }
    if hit(stride, x1, x2, y, y + 1, j) {
        let (a, b) = choose|a: int, b: int| x1 <= a < x2 && y <= b < y + 1 && #[trigger] native_index(stride, a, b) == j;
        assert(x1 <= a < x2 && y1 <= b < y + 1 && native_index(stride, a, b) == j);
    }
}

/// The native buffer after painting gray `g` at every screen pixel of
/// `[x1, x2) x [y1, y2)` whose index lies inside the buffer.
pub open spec fn painted(buf: Seq<u8>, stride: int, x1: int, x2: int, y1: int, y2: int, g: u8) -> Seq<u8> {
    Seq::new(buf.len(), |j: int| if hit(stride, x1, x2, y1, y2, j) { g } else { buf[j] })
}

/// The waveform a refresh uses: `mode`, or the path default when it is `None`.
pub open spec fn refresh_mode(path: Path, mode: Option<Mode>) -> Mode {
    match mode {
        Some(m) => m,
        None => path.spec_default_mode(),
    }
}

/// The refresh window of a screen rectangle: rotated into the buffer and clamped to
/// `[0, BUF_W] x [0, BUF_H]`.
pub open spec fn refresh_window(rect: ScreenRect) -> Rect {
    let b = rect.spec_to_buf();
    Rect {
        x1: clamp(b.x1 as int, 0, BUF_W as int) as i32,
        y1: clamp(b.y1 as int, 0, BUF_H as int) as i32,
        x2: clamp(b.x2 as int, 0, BUF_W as int) as i32,
        y2: clamp(b.y2 as int, 0, BUF_H as int) as i32,
    }
}

/// `req` is the request that refreshes `rect` of the screen on `path`: the path's
/// refresh code on the device's descriptor, carrying the path's buffer offset, the
/// waveform, the panel size and the refresh window.
pub open spec fn is_refresh_request(req: IoctlRequest, ebc: Ebc, path: Path, rect: ScreenRect, mode: Option<Mode>) -> bool {
    &&& req.fd == ebc.fd
    &&& req.cmd == path.spec_send_cmd()
    &&& req.arg matches IoctlArg::Info(info) && info.is_refresh_info(
        match path {
            Path::Osd => ebc.osd_offset,
            Path::Main => ebc.main_offset,
        },
        refresh_mode(path, mode).spec_code() as i32,
        ebc.width,
        ebc.height,
        refresh_window(rect),
    )
}

/// A refresh request uses the waveform asked for, on either path; only when none is
/// asked for does it use the path's default, `OVERLAY` (code 1) on the OSD path and
/// `FULL_GC16` (code 2) on the main path. It goes to the device's descriptor with
/// `SEND_OSD_BUFFER` or `SEND_BUFFER`, and carries that path's buffer offset and the
/// panel's size.
pub proof fn lemma_refresh_waveform(req: IoctlRequest, ebc: Ebc, path: Path, rect: ScreenRect, mode: Option<Mode>)
    requires
        is_refresh_request(req, ebc, path, rect, mode),
    ensures
        req.fd == ebc.fd,
        req.cmd == (if path == Path::Osd { EBC_SEND_OSD_BUFFER } else { EBC_SEND_BUFFER }),
        req.arg matches IoctlArg::Info(info) && {
            &&& info.epd_mode == (match mode {
                Some(m) => m.spec_code(),
                None => if path == Path::Osd { 1int } else { 2int },
            })
            &&& info.offset == (if path == Path::Osd { ebc.osd_offset } else { ebc.main_offset })
            &&& info.width == ebc.width
            &&& info.height == ebc.height
            &&& 0 <= info.win_x1 <= BUF_W && 0 <= info.win_x2 <= BUF_W
            &&& 0 <= info.win_y1 <= BUF_H && 0 <= info.win_y2 <= BUF_H
            &&& (0 <= rect.spec_to_buf().x1 <= BUF_W ==> info.win_x1 == rect.spec_to_buf().x1)
            &&& (0 <= rect.spec_to_buf().x2 <= BUF_W ==> info.win_x2 == rect.spec_to_buf().x2)
            &&& (0 <= rect.spec_to_buf().y1 <= BUF_H ==> info.win_y1 == rect.spec_to_buf().y1)
            &&& (0 <= rect.spec_to_buf().y2 <= BUF_H ==> info.win_y2 == rect.spec_to_buf().y2)
        },
{
}

/// The request that refreshes `rect` of the screen on `path` of `ebc` with `mode`
/// (the path default when `None`).
pub fn refresh_request(ebc: &Ebc, path: Path, rect: ScreenRect, mode: Option<Mode>) -> (r: IoctlRequest)
    requires
        BUF_H - rect.x1 <= i32::MAX,
        BUF_H - rect.x2 <= i32::MAX,
    ensures
        is_refresh_request(r, *ebc, path, rect, mode),
{
    let m = match mode {
        Some(m) => m,
        None => path.default_mode(),
    };
    let b = rect.to_buf();
    let win = Rect::new(
        clamp_i32(b.x1, 0, BUF_W),
        clamp_i32(b.y1, 0, BUF_H),
        clamp_i32(b.x2, 0, BUF_W),
        clamp_i32(b.y2, 0, BUF_H),
    );
    let info = EbcBufInfo::for_refresh(path.buffer_offset(ebc), m.code(), ebc.width, ebc.height, win);
    IoctlRequest { fd: ebc.fd, cmd: path.send_cmd(), arg: IoctlArg::Info(info) }
}

/// Screen-space shadow canvas (`SCREEN_W x SCREEN_H` bytes, 8bpp), allocated on
/// first use and kept from one draw scope to the next.
pub struct ShadowBuffer {
    pub buf: Option<Vec<u8>>,
}

impl ShadowBuffer {
    /// The canvas `get_mut(len)` hands out: the kept one when it has length `len`,
    /// else a fresh all-white (`0xFF`) one.
    pub open spec fn prepared(self, len: nat) -> Seq<u8> {
        match self.buf {
            Some(b) => if b@.len() == len { b@ } else { Seq::new(len, |i: int| 0xFFu8) },
            None => Seq::new(len, |i: int| 0xFFu8),
        }
    }

    /// No canvas yet.
    pub fn new() -> (r: Self)
        ensures
            r.buf is None,
    {
        ShadowBuffer { buf: None }
    }

    /// The canvas of length `len`: the kept one, or a new all-white one when there is
    /// none or its length differs. What is written through the result is kept.
    pub fn get_mut(&mut self, len: usize) -> (r: &mut [u8])
        ensures
            r@ == old(self).prepared(len as nat),
            final(self).buf matches Some(b) && b@ == final(r)@,
    {
        let need = match &self.buf {
            Some(b) => b.len() != len,
            None => true,
        };
        if need {
            self.buf = Some(vec![0xFFu8; len]);
        }
        match &mut self.buf {
            Some(b) => b.as_mut_slice(),
            None => vstd::pervasive::unreached(),
        }
    }
}

/// The shadow canvas persists: a canvas of the requested length is handed out again
/// as it was left, so a draw scope starts from what the previous one wrote.
pub proof fn lemma_shadow_kept(sb: ShadowBuffer, len: nat)
    requires
        sb.buf matches Some(b) && b@.len() == len,
    ensures
        sb.buf matches Some(b) && sb.prepared(len) == b@,
{
}

/// A render surface bound to one path of an open device. `native` is that path's
/// buffer in the device mapping (`frame_bytes` long, empty when the device is not
/// mapped); the path is enabled while the surface is in use.
///
/// Drawing takes screen (portrait) coordinates, 1860 wide x 2480 tall; gray is 8-bit,
/// `0` black and `255` white.
pub struct Surface<'a> {
    pub ebc: &'a Ebc,
    pub native: &'a mut [u8],
    pub path: Path,
    pub enabled: bool,
    /// Shadow canvas for draw scopes.
    pub shadow: ShadowBuffer,
}

impl<'a> Surface<'a> {
    /// A surface on `path`, drawing into `native`, that path's buffer. The path is
    /// enabled (the request of [`Path::enable`] has succeeded).
    pub fn new(ebc: &'a Ebc, path: Path, native: &'a mut [u8]) -> (r: Self)
        ensures
            r.ebc == ebc,
            r.path == path,
            r.native@ == old(native)@,
            r.enabled,
            r.shadow.buf is None,
            final(native)@ == final(r.native)@,
    {
        Surface { ebc, native, path, enabled: true, shadow: ShadowBuffer::new() }
    }

    /// The device handle.
    pub fn ebc(&self) -> (r: &Ebc)
        ensures
            r == self.ebc,
    {
        self.ebc
    }

    /// The path drawn on.
    pub fn path(&self) -> (r: Path)
        ensures
            r == self.path,
    {
        self.path
    }

    /// Screen (portrait) width: 1860.
    pub fn screen_w(&self) -> (r: i32)
        ensures
            r == SCREEN_W,
    {
        SCREEN_W
    }

    /// Screen (portrait) height: 2480.
    pub fn screen_h(&self) -> (r: i32)
        ensures
            r == SCREEN_H,
    {
        SCREEN_H
    }

    /// Put gray `g` at screen `(x, y)`: off-screen points and points whose buffer
    /// index falls outside the buffer are ignored.
    pub fn put_pixel(&mut self, x: i32, y: i32, g: u8)
        requires
            on_screen(x as int, y as int) ==> index_fits(old(self).ebc.spec_stride() as int, x as int, y as int),
        ensures
            final(final(self).native)@ == final(old(self).native)@,
            final(self).native@ == pixel_written(old(self).native@, old(self).ebc.spec_stride() as int, x as int, y as int, g),
            final(self).ebc == old(self).ebc,
            final(self).path == old(self).path,
            final(self).enabled == old(self).enabled,
            final(self).shadow == old(self).shadow,
    {
        if x < 0 || y < 0 || x >= SCREEN_W || y >= SCREEN_H {
            return;
        }
        let by = (BUF_H - 1 - x) as usize;
        let bx = y as usize;
        let stride = self.ebc.stride();
        proof {
            assert(native_index(stride as int, x as int, y as int) == by * stride + bx) by (nonlinear_arith)
                requires by == BUF_H - 1 - x, bx == y;
        }
        let bi = by * stride + bx;
        if bi < self.native.len() {
            self.native[bi] = g;
        }
    }

    /// Fill the screen rectangle `[x1, x2) x [y1, y2)` (corners in any order) with
    /// gray `g`: every pixel of its on-screen part is put as by [`Surface::put_pixel`].
    pub fn fill_rect(&mut self, x1: i32, y1: i32, x2: i32, y2: i32, g: u8)
        requires
            forall|x: int, y: int| #![trigger native_index(old(self).ebc.spec_stride() as int, x, y)]
                (ScreenRect { x1, y1, x2, y2 }).on_screen_part().covers(x, y)
                ==> index_fits(old(self).ebc.spec_stride() as int, x, y),
        ensures
            final(final(self).native)@ == final(old(self).native)@,
            ({
                let c = (ScreenRect { x1, y1, x2, y2 }).on_screen_part();
                final(self).native@ == painted(old(self).native@, old(self).ebc.spec_stride() as int,
                    c.x1 as int, c.x2 as int, c.y1 as int, c.y2 as int, g)
            }),
            final(self).ebc == old(self).ebc,
            final(self).path == old(self).path,
            final(self).enabled == old(self).enabled,
            final(self).shadow == old(self).shadow,
    {
        let c = ScreenRect::clipped(x1, y1, x2, y2);
        let ghost stride = self.ebc.spec_stride() as int;
        let ghost orig = self.native@;
        let mut y = c.y1;
        while y < c.y2
            invariant
                final(self.native)@ == final(old(self).native)@,
                c == (ScreenRect { x1, y1, x2, y2 }).on_screen_part(),
                0 <= c.x1 <= c.x2 <= SCREEN_W,
                0 <= c.y1 <= c.y2 <= SCREEN_H,
                c.y1 <= y <= c.y2,
                stride == self.ebc.spec_stride() as int,
                forall|x: int, yy: int| #![trigger native_index(stride, x, yy)]
                    c.covers(x, yy) ==> index_fits(stride, x, yy),
                self.native@.len() == orig.len(),
                forall|j: int| 0 <= j < orig.len() ==> self.native@[j] == (
                    if hit(stride, c.x1 as int, c.x2 as int, c.y1 as int, y as int, j) { g } else { orig[j] }),
                self.ebc == old(self).ebc,
                self.path == old(self).path,
                self.enabled == old(self).enabled,
                self.shadow == old(self).shadow,
            decreases c.y2 - y,
        {
            let mut x = c.x1;
            while x < c.x2
                invariant
                    final(self.native)@ == final(old(self).native)@,
                    0 <= c.x1 <= c.x2 <= SCREEN_W,
                    0 <= c.y1 <= y < c.y2 <= SCREEN_H,
                    c.x1 <= x <= c.x2,
                    stride == self.ebc.spec_stride() as int,
                    forall|xx: int, yy: int| #![trigger native_index(stride, xx, yy)]
                        c.covers(xx, yy) ==> index_fits(stride, xx, yy),
                    self.native@.len() == orig.len(),
                    forall|j: int| 0 <= j < orig.len() ==> self.native@[j] == (
                        if hit(stride, c.x1 as int, c.x2 as int, c.y1 as int, y as int, j)
                            || hit(stride, c.x1 as int, x as int, y as int, y + 1, j) { g } else { orig[j] }),
                    self.ebc == old(self).ebc,
                    self.path == old(self).path,
                    self.enabled == old(self).enabled,
                    self.shadow == old(self).shadow,
                decreases c.x2 - x,
            {
                proof {
                    assert(c.covers(x as int, y as int));
                    assert(index_fits(stride, x as int, y as int));
                }
                let ghost before = self.native@;
                self.put_pixel(x, y, g);
                proof {
                    assert forall|j: int| 0 <= j < orig.len() implies self.native@[j] == (
                        if hit(stride, c.x1 as int, c.x2 as int, c.y1 as int, y as int, j)
                            || hit(stride, c.x1 as int, x + 1, y as int, y + 1, j) { g } else { orig[j] }) by {
                        lemma_hit_extend_col(stride, c.x1 as int, x as int, y as int, j);
                    }
                }
                x = x + 1;
            }
            proof {
                assert forall|j: int| 0 <= j < orig.len() implies self.native@[j] == (
                    if hit(stride, c.x1 as int, c.x2 as int, c.y1 as int, y + 1, j) { g } else { orig[j] }) by {
                    lemma_hit_extend_row(stride, c.x1 as int, c.x2 as int, c.y1 as int, y as int, j);
                }
            }
            y = y + 1;
        }
        proof {
            assert(self.native@ =~= painted(orig, stride, c.x1 as int, c.x2 as int, c.y1 as int, c.y2 as int, g));
        }
    }

    /// Clear the whole screen to gray `g`.
    pub fn clear(&mut self, g: u8)
        requires
            forall|x: int, y: int| #![trigger native_index(old(self).ebc.spec_stride() as int, x, y)]
                on_screen(x, y) ==> index_fits(old(self).ebc.spec_stride() as int, x, y),
        ensures
            final(final(self).native)@ == final(old(self).native)@,
            final(self).native@ == painted(old(self).native@, old(self).ebc.spec_stride() as int,
                0, SCREEN_W as int, 0, SCREEN_H as int, g),
            final(self).ebc == old(self).ebc,
            final(self).path == old(self).path,
            final(self).enabled == old(self).enabled,
            final(self).shadow == old(self).shadow,
    {
        self.fill_rect(0, 0, SCREEN_W, SCREEN_H, g);
    }

    /// The request that pushes the screen region `rect` to the panel with `mode`
    /// (`None`: the path default, OVERLAY on the OSD path and FULL_GC16 on the main
    /// path).
    pub fn refresh(&self, rect: ScreenRect, mode: Option<Mode>) -> (r: IoctlRequest)
        requires
            BUF_H - rect.x1 <= i32::MAX,
            BUF_H - rect.x2 <= i32::MAX,
        ensures
            is_refresh_request(r, *self.ebc, self.path, rect, mode),
    {
        refresh_request(self.ebc, self.path, rect, mode)
    }

    /// The request that pushes the whole screen to the panel.
    pub fn refresh_full(&self, mode: Option<Mode>) -> (r: IoctlRequest)
        ensures
            is_refresh_request(r, *self.ebc, self.path, (ScreenRect { x1: 0, y1: 0, x2: SCREEN_W, y2: SCREEN_H }), mode),
    {
        self.refresh(ScreenRect::full(), mode)
    }
}

} // verus!
