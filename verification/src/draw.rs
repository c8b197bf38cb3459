//! Batch-write draw scope with a screen-space shadow canvas.
//!
//! Inside a scope every write goes to the surface's shadow canvas (`SCREEN_W x
//! SCREEN_H` bytes, row-major, screen coordinates) and a running dirty rectangle
//! collects every region touched. Flushing copies the dirty region of the shadow into
//! the path's native buffer, rotating it 90 degrees clockwise, and yields the single
//! refresh request for that region. The shadow is kept on the surface, so one scope
//! starts from what the previous one left.

use crate::ebc::Ebc;
use crate::geom::{clamp, clamp_i32, max_int, min_int, on_screen, ScreenRect, BUF_H, SCREEN_H, SCREEN_W};
use crate::ioctl::IoctlRequest;
use crate::mode::Mode;
use crate::path::{index_fits, is_refresh_request, native_index, refresh_request, Path, Surface};
use vstd::prelude::*;

verus! {

/// Shadow row stride in bytes: the screen width.
pub const SHADOW_STRIDE: usize = 1860;

/// Shadow size in bytes: `SCREEN_W * SCREEN_H`.
pub const SHADOW_BYTES: usize = 4612800;

/// Index in the shadow of the screen pixel `(x, y)`.
pub open spec fn shadow_index(x: int, y: int) -> int {
    y * SHADOW_STRIDE + x
}

/// The dirty rectangle is empty or a non-empty rectangle on the screen.
pub open spec fn dirty_ok(dirty: Option<ScreenRect>) -> bool {
    dirty matches Some(d) ==> 0 <= d.x1 < d.x2 <= SCREEN_W && 0 <= d.y1 < d.y2 <= SCREEN_H
}

/// The dirty rectangle after marking `[x1, x2) x [y1, y2)`: the region is clipped to
/// the screen; an empty region changes nothing, otherwise the result is the smallest
/// rectangle holding the old dirty rectangle and the region.
pub open spec fn dirty_after(dirty: Option<ScreenRect>, x1: int, y1: int, x2: int, y2: int) -> Option<ScreenRect> {
    let cx1 = clamp(x1, 0, SCREEN_W as int);
    let cx2 = clamp(x2, 0, SCREEN_W as int);
    let cy1 = clamp(y1, 0, SCREEN_H as int);
    let cy2 = clamp(y2, 0, SCREEN_H as int);
    if cx1 >= cx2 || cy1 >= cy2 {
        dirty
    } else {
        match dirty {
            None => Some(ScreenRect { x1: cx1 as i32, y1: cy1 as i32, x2: cx2 as i32, y2: cy2 as i32 }),
            Some(d) => Some(ScreenRect {
                x1: min_int(d.x1 as int, cx1) as i32,
                y1: min_int(d.y1 as int, cy1) as i32,
                x2: max_int(d.x2 as int, cx2) as i32,
                y2: max_int(d.y2 as int, cy2) as i32,
            }),
        }
    }
}

/// Marking a region keeps the dirty rectangle on the screen, and the new dirty
/// rectangle holds every point of the old one and every on-screen point of the region.
pub proof fn lemma_dirty_covers(dirty: Option<ScreenRect>, x1: int, y1: int, x2: int, y2: int, px: int, py: int)
    requires
        dirty_ok(dirty),
    ensures
        dirty_ok(dirty_after(dirty, x1, y1, x2, y2)),
        (dirty matches Some(d) && d.covers(px, py)) ==> (dirty_after(dirty, x1, y1, x2, y2) matches Some(n) && n.covers(px, py)),
        (x1 <= px < x2 && y1 <= py < y2 && on_screen(px, py)) ==> (dirty_after(dirty, x1, y1, x2, y2) matches Some(n) && n.covers(px, py)),
{
}

/// The dirty rectangle does not depend on the order in which regions are marked, and
/// marking a region a second time changes nothing.
pub proof fn lemma_dirty_order(
    dirty: Option<ScreenRect>,
    ax1: int, ay1: int, ax2: int, ay2: int,
    bx1: int, by1: int, bx2: int, by2: int,
)
    requires
        dirty_ok(dirty),
    ensures
        dirty_after(dirty_after(dirty, ax1, ay1, ax2, ay2), bx1, by1, bx2, by2)
            == dirty_after(dirty_after(dirty, bx1, by1, bx2, by2), ax1, ay1, ax2, ay2),
        dirty_after(dirty_after(dirty, ax1, ay1, ax2, ay2), ax1, ay1, ax2, ay2)
            == dirty_after(dirty, ax1, ay1, ax2, ay2),
{
}

/// Shadow index `i` lies in the screen rectangle `r` (`r.x1 <= x < r.x2`,
/// `r.y1 <= y < r.y2` for its pixel `(x, y)`).
pub open spec fn in_region(i: int, r: ScreenRect) -> bool {
    r.x1 <= i % (SHADOW_STRIDE as int) < r.x2 && r.y1 <= i / (SHADOW_STRIDE as int) < r.y2
}

/// The shadow with every pixel of the screen rectangle `r` set to `g`.
pub open spec fn filled(s: Seq<u8>, r: ScreenRect, g: u8) -> Seq<u8> {
    Seq::new(s.len(), |i: int| if in_region(i, r) { g } else { s[i] })
}

/// What filling a rectangle does, over all inputs: an on-screen pixel `(x, y)` takes
/// gray `g` exactly when it lies in `[x1, x2) x [y1, y2)` with the corners taken in
/// either order, and keeps its gray otherwise.
pub proof fn lemma_fill_pixels(s: Seq<u8>, rect: ScreenRect, g: u8, x: int, y: int)
    requires
        s.len() == SHADOW_BYTES,
        on_screen(x, y),
    ensures
        filled(s, rect.on_screen_part(), g).len() == s.len(),
        filled(s, rect.on_screen_part(), g)[shadow_index(x, y)] == (
            if min_int(rect.x1 as int, rect.x2 as int) <= x < max_int(rect.x1 as int, rect.x2 as int)
                && min_int(rect.y1 as int, rect.y2 as int) <= y < max_int(rect.y1 as int, rect.y2 as int) {
                g
            } else {
                s[shadow_index(x, y)]
            }),
{
    lemma_shadow_index(x, y);
}

/// The shadow index of an on-screen pixel gives the pixel back.
pub proof fn lemma_shadow_index(x: int, y: int)
    requires
        0 <= x < SHADOW_STRIDE,
        0 <= y,
    ensures
        shadow_index(x, y) % (SHADOW_STRIDE as int) == x,
        shadow_index(x, y) / (SHADOW_STRIDE as int) == y,
{
    vstd::arithmetic::div_mod::lemma_fundamental_div_mod_converse(shadow_index(x, y), SHADOW_STRIDE as int, y, x);
}

/// The shadow after putting the pixels `(x, y, g)` of `pxs` in order: off-screen
/// ones are skipped, a later pixel at the same place wins.
pub open spec fn pixels_put(s: Seq<u8>, pxs: Seq<(i32, i32, u8)>) -> Seq<u8>
    decreases pxs.len(),
{
    if pxs.len() == 0 {
        s
    } else {
        let p = pxs.last();
        let t = pixels_put(s, pxs.drop_last());
        if on_screen(p.0 as int, p.1 as int) {
            t.update(shadow_index(p.0 as int, p.1 as int), p.2)
        } else {
            t
        }
    }
}

/// The bounding box `(min x, min y, max x + 1, max y + 1)` of the on-screen pixels
/// of `pxs`; `None` when there are none.
pub open spec fn on_screen_bounds(pxs: Seq<(i32, i32, u8)>) -> Option<(int, int, int, int)>
    decreases pxs.len(),
{
    if pxs.len() == 0 {
        None
    } else {
        let p = pxs.last();
        let b = on_screen_bounds(pxs.drop_last());
        if on_screen(p.0 as int, p.1 as int) {
            match b {
                None => Some((p.0 as int, p.1 as int, p.0 + 1, p.1 + 1)),
                Some((x1, y1, x2, y2)) => Some((
                    min_int(x1, p.0 as int),
                    min_int(y1, p.1 as int),
                    max_int(x2, p.0 + 1),
                    max_int(y2, p.1 + 1),
                )),
            }
        } else {
            b
        }
    }
}

/// The pixel `px` is put at screen point `(x, y)`.
pub open spec fn puts_at(px: (i32, i32, u8), x: int, y: int) -> bool {
    px.0 == x && px.1 == y
}

/// What putting a list of pixels does, over all inputs: an on-screen point that no
/// pixel of the list names keeps its gray; one that some pixel names takes the gray
/// of the last such pixel. Off-screen pixels change nothing.
pub proof fn lemma_pixels_put(s: Seq<u8>, pxs: Seq<(i32, i32, u8)>, x: int, y: int)
    requires
        s.len() == SHADOW_BYTES,
        on_screen(x, y),
    ensures
        pixels_put(s, pxs).len() == s.len(),
        (forall|k: int| 0 <= k < pxs.len() ==> !puts_at(#[trigger] pxs[k], x, y))
            ==> pixels_put(s, pxs)[shadow_index(x, y)] == s[shadow_index(x, y)],
        forall|k: int| 0 <= k < pxs.len() && puts_at(#[trigger] pxs[k], x, y)
            && (forall|j: int| k < j < pxs.len() ==> !puts_at(#[trigger] pxs[j], x, y))
            ==> pixels_put(s, pxs)[shadow_index(x, y)] == pxs[k].2,
    decreases pxs.len(),
{
    if pxs.len() > 0 {
        let init = pxs.drop_last();
        let p = pxs.last();
        lemma_pixels_put(s, init, x, y);
        lemma_shadow_index(x, y);
        if on_screen(p.0 as int, p.1 as int) {
            lemma_shadow_index(p.0 as int, p.1 as int);
            if shadow_index(p.0 as int, p.1 as int) == shadow_index(x, y) {
                lemma_shadow_index_injective(x, y, p.0 as int, p.1 as int);
            }
        }
        assert forall|k: int| 0 <= k < pxs.len() && puts_at(#[trigger] pxs[k], x, y)
            && (forall|j: int| k < j < pxs.len() ==> !puts_at(#[trigger] pxs[j], x, y))
            implies pixels_put(s, pxs)[shadow_index(x, y)] == pxs[k].2 by {
            if k < pxs.len() - 1 {
                assert(!puts_at(pxs[pxs.len() - 1], x, y));
                assert(init[k] == pxs[k]);
                assert forall|j: int| k < j < init.len() implies !puts_at(#[trigger] init[j], x, y) by {
                    assert(init[j] == pxs[j]);
                }
            }
        }
        if forall|k: int| 0 <= k < pxs.len() ==> !puts_at(#[trigger] pxs[k], x, y) {
            assert(!puts_at(pxs[pxs.len() - 1], x, y));
            assert forall|k: int| 0 <= k < init.len() implies !puts_at(#[trigger] init[k], x, y) by {
                assert(init[k] == pxs[k]);
            }
        }
    }
}

/// The bounds of the on-screen pixels of a list are exact: `None` exactly when no
/// pixel is on the screen; otherwise every on-screen pixel lies inside them and each
/// of the four sides is reached by one of them.
pub proof fn lemma_on_screen_bounds(pxs: Seq<(i32, i32, u8)>)
    ensures
        on_screen_bounds(pxs) is None <==> (forall|k: int| 0 <= k < pxs.len() ==> !on_screen(#[trigger] pxs[k].0 as int, pxs[k].1 as int)),
        on_screen_bounds(pxs) matches Some((x1, y1, x2, y2)) ==> {
            &&& forall|k: int| 0 <= k < pxs.len() && on_screen(#[trigger] pxs[k].0 as int, pxs[k].1 as int)
                ==> x1 <= pxs[k].0 < x2 && y1 <= pxs[k].1 < y2
            &&& exists|k: int| 0 <= k < pxs.len() && on_screen(#[trigger] pxs[k].0 as int, pxs[k].1 as int) && pxs[k].0 == x1
            &&& exists|k: int| 0 <= k < pxs.len() && on_screen(#[trigger] pxs[k].0 as int, pxs[k].1 as int) && pxs[k].1 == y1
            &&& exists|k: int| 0 <= k < pxs.len() && on_screen(#[trigger] pxs[k].0 as int, pxs[k].1 as int) && pxs[k].0 + 1 == x2
            &&& exists|k: int| 0 <= k < pxs.len() && on_screen(#[trigger] pxs[k].0 as int, pxs[k].1 as int) && pxs[k].1 + 1 == y2
        },
    decreases pxs.len(),
{
    if pxs.len() > 0 {
        let init = pxs.drop_last();
        let n = pxs.len() - 1;
        lemma_on_screen_bounds(init);
        assert forall|k: int| 0 <= k < init.len() implies init[k] == pxs[k] by {}
        if on_screen_bounds(init) is None {
            if forall|k: int| 0 <= k < pxs.len() ==> !on_screen(#[trigger] pxs[k].0 as int, pxs[k].1 as int) {
            } else {
                assert(on_screen(pxs[n].0 as int, pxs[n].1 as int)) by {
                    let k = choose|k: int| 0 <= k < pxs.len() && on_screen(#[trigger] pxs[k].0 as int, pxs[k].1 as int);
                    if k < n {
                        assert(init[k] == pxs[k]);
                    }
                }
            }
        }
        if let Some((x1, y1, x2, y2)) = on_screen_bounds(init) {
            let k0 = choose|k: int| 0 <= k < init.len() && on_screen(#[trigger] init[k].0 as int, init[k].1 as int) && init[k].0 == x1;
            let k1 = choose|k: int| 0 <= k < init.len() && on_screen(#[trigger] init[k].0 as int, init[k].1 as int) && init[k].1 == y1;
            let k2 = choose|k: int| 0 <= k < init.len() && on_screen(#[trigger] init[k].0 as int, init[k].1 as int) && init[k].0 + 1 == x2;
            let k3 = choose|k: int| 0 <= k < init.len() && on_screen(#[trigger] init[k].0 as int, init[k].1 as int) && init[k].1 + 1 == y2;
            assert(pxs[k0] == init[k0] && pxs[k1] == init[k1] && pxs[k2] == init[k2] && pxs[k3] == init[k3]);
            assert(on_screen(pxs[k0].0 as int, pxs[k0].1 as int) && on_screen(pxs[k1].0 as int, pxs[k1].1 as int));
            assert(on_screen(pxs[k2].0 as int, pxs[k2].1 as int) && on_screen(pxs[k3].0 as int, pxs[k3].1 as int));
            assert(on_screen(pxs[n].0 as int, pxs[n].1 as int) ==> on_screen(pxs[n].0 as int, pxs[n].1 as int));
        }
    }
}

/// Where a `width x height` image put with its top-left at screen `(x, y)` lands:
/// `(sx0, sy0, dx0, dy0, cols, rows)`: the first source column and row shown, the
/// screen point they go to, and how many columns and rows are on the screen.
pub open spec fn blit_geometry(width: int, height: int, x: int, y: int) -> (int, int, int, int, int, int) {
    let sx0 = if x < 0 { -x } else { 0 };
    let sy0 = if y < 0 { -y } else { 0 };
    let dx0 = if x < 0 { 0 } else { x };
    let dy0 = if y < 0 { 0 } else { y };
    let cols = min_int(width - sx0, if dx0 < SCREEN_W { SCREEN_W - dx0 } else { 0 });
    let rows = min_int(height - sy0, if dy0 < SCREEN_H { SCREEN_H - dy0 } else { 0 });
    (sx0, sy0, dx0, dy0, cols, rows)
}

/// The shadow after copying the `cols x rows` block of the image (row stride
/// `width`) starting at source `(sx0, sy0)` to the screen block starting at
/// `(dx0, dy0)`.
pub open spec fn blitted(
    s: Seq<u8>,
    img: Seq<u8>,
    width: int,
    sx0: int,
    sy0: int,
    dx0: int,
    dy0: int,
    cols: int,
    rows: int,
) -> Seq<u8> {
    Seq::new(
        s.len(),
        |i: int|
            if in_region(i, ScreenRect { x1: dx0 as i32, y1: dy0 as i32, x2: (dx0 + cols) as i32, y2: (dy0 + rows) as i32 }) {
                img[(sy0 + i / (SHADOW_STRIDE as int) - dy0) * width + sx0 + i % (SHADOW_STRIDE as int) - dx0]
            } else {
                s[i]
            },
    )
}

/// What a blit does, over all inputs: the on-screen pixel `(px, py)` covered by the
/// image placed at `(x, y)` takes the image's pixel at row `py - y`, column `px - x`;
/// every other pixel keeps its gray.
pub proof fn lemma_blit_pixels(s: Seq<u8>, img: Seq<u8>, width: int, height: int, x: i32, y: i32, px: int, py: int)
    requires
        s.len() == SHADOW_BYTES,
        on_screen(px, py),
        width > 0,
        height > 0,
    ensures
        ({
            let (sx0, sy0, dx0, dy0, cols, rows) = blit_geometry(width, height, x as int, y as int);
            cols > 0 && rows > 0 ==> blitted(s, img, width, sx0, sy0, dx0, dy0, cols, rows)[shadow_index(px, py)] == (
                if x <= px < x + width && y <= py < y + height {
                    img[(py - y) * width + (px - x)]
                } else {
                    s[shadow_index(px, py)]
                })
        }),
{
    lemma_shadow_index(px, py);
}

/// A pixel of row `r < rows`, column `c < cols` of a `width x height` image lies
/// inside the image.
pub proof fn lemma_image_index(width: int, height: int, r: int, c: int)
    requires
        0 <= r < height,
        0 <= c < width,
    ensures
        0 <= r * width + c < width * height,
{
    assert(r * width + c < width * height) by (nonlinear_arith)
        requires 0 <= r < height, 0 <= c < width;
    assert(0 <= r * width) by (nonlinear_arith)
        requires 0 <= r, 0 <= width;
}

/// The native buffer after copying the shadow pixel `(sx, sy)` to its rotated place,
/// when that place lies inside the buffer.
pub open spec fn copy_pixel(native: Seq<u8>, shadow: Seq<u8>, stride: int, sx: int, sy: int) -> Seq<u8> {
    let j = native_index(stride, sx, sy);
    if 0 <= j < native.len() {
        native.update(j, shadow[shadow_index(sx, sy)])
    } else {
        native
    }
}

/// The native buffer after copying the shadow pixels `x1 <= sx < x` of screen row
/// `sy`, left to right.
pub open spec fn copy_row(native: Seq<u8>, shadow: Seq<u8>, stride: int, sy: int, x1: int, x: int) -> Seq<u8>
    decreases x - x1,
{
    if x <= x1 {
        native
    } else {
        copy_pixel(copy_row(native, shadow, stride, sy, x1, x - 1), shadow, stride, x - 1, sy)
    }
}

/// The native buffer after copying the screen rows `y1 <= sy < y` of the shadow
/// block `[x1, x2)`, top to bottom, each left to right.
pub open spec fn copy_rows(native: Seq<u8>, shadow: Seq<u8>, stride: int, x1: int, x2: int, y1: int, y: int) -> Seq<u8>
    decreases y - y1,
{
    if y <= y1 {
        native
    } else {
        copy_row(copy_rows(native, shadow, stride, x1, x2, y1, y - 1), shadow, stride, y - 1, x1, x2)
    }
}

/// Native indices grow with the screen row and shrink with the screen column.
pub proof fn lemma_index_monotone(stride: int, sx: int, sy: int, x1: int, ymax: int)
    requires
        0 <= stride,
        x1 <= sx < SCREEN_W,
        sy <= ymax,
    ensures
        native_index(stride, sx, sy) <= native_index(stride, x1, ymax),
{
    assert((BUF_H - 1 - sx) * stride <= (BUF_H - 1 - x1) * stride) by (nonlinear_arith)
        requires 0 <= stride, x1 <= sx;
}

/// When rows of the native buffer are at least `SCREEN_H` bytes long, different
/// screen pixels have different native indices.
pub proof fn lemma_index_injective(stride: int, sx: int, sy: int, tx: int, ty: int)
    requires
        0 <= sy < stride,
        0 <= ty < stride,
        native_index(stride, sx, sy) == native_index(stride, tx, ty),
    ensures
        sx == tx,
        sy == ty,
{
    let j = native_index(stride, sx, sy);
    vstd::arithmetic::div_mod::lemma_fundamental_div_mod_converse(j, stride, BUF_H - 1 - sx, sy);
    vstd::arithmetic::div_mod::lemma_fundamental_div_mod_converse(j, stride, BUF_H - 1 - tx, ty);
}

/// Copying part of one screen row changes exactly the in-buffer indices of its
/// pixels, each to its shadow pixel.
proof fn lemma_copy_row(native: Seq<u8>, shadow: Seq<u8>, stride: int, sy: int, x1: int, x: int)
    requires
        SCREEN_H <= stride,
        0 <= sy < SCREEN_H,
    ensures
        copy_row(native, shadow, stride, sy, x1, x).len() == native.len(),
        forall|j: int| 0 <= j < native.len() && (forall|sx: int| x1 <= sx < x ==> #[trigger] native_index(stride, sx, sy) != j)
            ==> copy_row(native, shadow, stride, sy, x1, x)[j] == native[j],
        forall|sx: int| x1 <= sx < x && 0 <= #[trigger] native_index(stride, sx, sy) < native.len()
            ==> copy_row(native, shadow, stride, sy, x1, x)[native_index(stride, sx, sy)] == shadow[shadow_index(sx, sy)],
    decreases x - x1,
{
    if x > x1 {
        lemma_copy_row(native, shadow, stride, sy, x1, x - 1);
        assert forall|sx: int| x1 <= sx < x - 1 implies #[trigger] native_index(stride, sx, sy) != native_index(stride, x - 1, sy) by {
            if native_index(stride, sx, sy) == native_index(stride, x - 1, sy) {
                lemma_index_injective(stride, sx, sy, x - 1, sy);
            }
        }
        let prev = copy_row(native, shadow, stride, sy, x1, x - 1);
        assert forall|j: int| 0 <= j < native.len() && (forall|sx: int| x1 <= sx < x ==> #[trigger] native_index(stride, sx, sy) != j)
            implies copy_row(native, shadow, stride, sy, x1, x)[j] == native[j] by {
            assert(native_index(stride, x - 1, sy) != j);
            assert forall|sx: int| x1 <= sx < x - 1 implies #[trigger] native_index(stride, sx, sy) != j by {
                assert(x1 <= sx < x);
            }
        }
    }
}

/// Copying rows of a screen block changes exactly the in-buffer indices of its
/// pixels, each to its shadow pixel.
proof fn lemma_copy_rows(native: Seq<u8>, shadow: Seq<u8>, stride: int, x1: int, x2: int, y1: int, y: int)
    requires
        SCREEN_H <= stride,
        0 <= y1,
        y <= SCREEN_H,
    ensures
        copy_rows(native, shadow, stride, x1, x2, y1, y).len() == native.len(),
        forall|j: int| 0 <= j < native.len() && !crate::path::hit(stride, x1, x2, y1, y, j)
            ==> copy_rows(native, shadow, stride, x1, x2, y1, y)[j] == native[j],
        forall|sx: int, sy: int| x1 <= sx < x2 && y1 <= sy < y && 0 <= #[trigger] native_index(stride, sx, sy) < native.len()
            ==> copy_rows(native, shadow, stride, x1, x2, y1, y)[native_index(stride, sx, sy)] == shadow[shadow_index(sx, sy)],
    decreases y - y1,
{
    if y > y1 {
        lemma_copy_rows(native, shadow, stride, x1, x2, y1, y - 1);
        let prev = copy_rows(native, shadow, stride, x1, x2, y1, y - 1);
        lemma_copy_row(prev, shadow, stride, y - 1, x1, x2);
        assert forall|j: int| 0 <= j < native.len() && !crate::path::hit(stride, x1, x2, y1, y, j)
            implies copy_rows(native, shadow, stride, x1, x2, y1, y)[j] == native[j] by {
            crate::path::lemma_hit_extend_row(stride, x1, x2, y1, y - 1, j);
            assert forall|sx: int| x1 <= sx < x2 implies #[trigger] native_index(stride, sx, y - 1) != j by {
                if native_index(stride, sx, y - 1) == j {
                    assert(crate::path::hit(stride, x1, x2, y - 1, y, j));
                }
            }
        }
        assert forall|sx: int, sy: int| x1 <= sx < x2 && y1 <= sy < y && 0 <= #[trigger] native_index(stride, sx, sy) < native.len()
            implies copy_rows(native, shadow, stride, x1, x2, y1, y)[native_index(stride, sx, sy)] == shadow[shadow_index(sx, sy)] by {
            if sy < y - 1 {
                assert forall|tx: int| x1 <= tx < x2 implies #[trigger] native_index(stride, tx, y - 1) != native_index(stride, sx, sy) by {
                    if native_index(stride, tx, y - 1) == native_index(stride, sx, sy) {
                        lemma_index_injective(stride, tx, y - 1, sx, sy);
                    }
                }
            }
        }
    }
}

/// After a flush, the native buffer shows the flushed region of the shadow rotated
/// 90 degrees clockwise: when native rows hold at least `SCREEN_H` bytes (as on this
/// device, where the stride is the width 2480), every pixel of the region whose
/// rotated place is inside the buffer holds its shadow value there, and every other
/// byte of the buffer is unchanged.
pub proof fn lemma_flush_shows_shadow(native: Seq<u8>, shadow: Seq<u8>, stride: int, d: ScreenRect)
    requires
        SCREEN_H <= stride,
        dirty_ok(Some(d)),
    ensures
        ({
            let out = copy_rows(native, shadow, stride, d.x1 as int, d.x2 as int, d.y1 as int, d.y2 as int);
            &&& out.len() == native.len()
            &&& forall|sx: int, sy: int| d.covers(sx, sy) && 0 <= #[trigger] native_index(stride, sx, sy) < native.len()
                ==> out[native_index(stride, sx, sy)] == shadow[shadow_index(sx, sy)]
            &&& forall|j: int| 0 <= j < native.len() && !crate::path::hit(stride, d.x1 as int, d.x2 as int, d.y1 as int, d.y2 as int, j)
                ==> out[j] == native[j]
        }),
{
    lemma_copy_rows(native, shadow, stride, d.x1 as int, d.x2 as int, d.y1 as int, d.y2 as int);
}

/// A batch-write drawing scope on a surface. Writes go to the shadow canvas; a flush
/// copies the dirty region to the native buffer and yields one refresh request.
pub struct Draw<'a> {
    pub ebc: &'a Ebc,
    pub path: Path,
    /// The path's native buffer.
    pub native: &'a mut [u8],
    /// The surface's shadow canvas.
    pub shadow: &'a mut [u8],
    /// Union of all regions written since the last flush; `None` when nothing was.
    pub dirty: Option<ScreenRect>,
    /// Refresh waveform for the flush; `None` is the path default.
    pub mode: Option<Mode>,
    /// Set by `cancel`: the scope is dropped without a flush.
    pub cancelled: bool,
    /// Set by `flush`: dropping the scope does not flush again.
    pub flushed: bool,
}

impl<'a> Draw<'a> {
    /// The shadow has the screen's size and the dirty rectangle is on the screen.
    pub open spec fn wf(&self) -> bool {
        &&& self.shadow@.len() == SHADOW_BYTES
        &&& dirty_ok(self.dirty)
    }

    /// Everything but the shadow and the dirty rectangle is as in `other`.
    pub open spec fn same_setting(&self, other: &Draw<'a>) -> bool {
        &&& self.ebc == other.ebc
        &&& self.path == other.path
        &&& self.native@ == other.native@
        &&& self.mode == other.mode
        &&& self.cancelled == other.cancelled
        &&& self.flushed == other.flushed
    }

    fn dirty_union_rect(&mut self, x1: i32, y1: i32, x2: i32, y2: i32)
        requires
            dirty_ok(old(self).dirty),
        ensures
            final(self).dirty == dirty_after(old(self).dirty, x1 as int, y1 as int, x2 as int, y2 as int),
            final(final(self).native)@ == final(old(self).native)@,
            final(final(self).shadow)@ == final(old(self).shadow)@,
            final(self).same_setting(&*old(self)),
            final(self).shadow@ == old(self).shadow@,
    {
        let x1 = clamp_i32(x1, 0, SCREEN_W);
        let x2 = clamp_i32(x2, 0, SCREEN_W);
        let y1 = clamp_i32(y1, 0, SCREEN_H);
        let y2 = clamp_i32(y2, 0, SCREEN_H);
        if x1 >= x2 || y1 >= y2 {
            return;
        }
        self.dirty = Some(match self.dirty {
            None => ScreenRect { x1, y1, x2, y2 },
            Some(d) => ScreenRect {
                x1: if d.x1 <= x1 { d.x1 } else { x1 },
                y1: if d.y1 <= y1 { d.y1 } else { y1 },
                x2: if d.x2 <= x2 { x2 } else { d.x2 },
                y2: if d.y2 <= y2 { y2 } else { d.y2 },
            },
        });
    }

    /// Put gray `g` at screen `(x, y)`; off-screen points are clipped. Marks the
    /// pixel dirty.
    pub fn put_pixel(&mut self, x: i32, y: i32, g: u8)
        requires
            old(self).wf(),
        ensures
            final(self).wf(),
            final(final(self).native)@ == final(old(self).native)@,
            final(final(self).shadow)@ == final(old(self).shadow)@,
            final(self).same_setting(&*old(self)),
            final(self).shadow@ == (if on_screen(x as int, y as int) {
                old(self).shadow@.update(shadow_index(x as int, y as int), g)
            } else {
                old(self).shadow@
            }),
            final(self).dirty == (if on_screen(x as int, y as int) {
                dirty_after(old(self).dirty, x as int, y as int, x + 1, y + 1)
            } else {
                old(self).dirty
            }),
    {
        if x < 0 || y < 0 || x >= SCREEN_W || y >= SCREEN_H {
            return;
        }
        let bi = (y as usize) * SHADOW_STRIDE + (x as usize);
        self.shadow[bi] = g;
        self.dirty_union_rect(x, y, x + 1, y + 1);
        proof {
            lemma_dirty_covers(old(self).dirty, x as int, y as int, x + 1, y + 1, 0, 0);
        }
    }

    /// Fill the screen rectangle `[x1, x2) x [y1, y2)` (corners in any order,
    /// clipped to the screen) with gray `g`, and mark it dirty.
    pub fn fill_rect(&mut self, x1: i32, y1: i32, x2: i32, y2: i32, g: u8)
        requires
            old(self).wf(),
        ensures
            final(final(self).native)@ == final(old(self).native)@,
            final(final(self).shadow)@ == final(old(self).shadow)@,
            final(self).wf(),
            final(self).same_setting(&*old(self)),
            ({
                let c = (ScreenRect { x1, y1, x2, y2 }).on_screen_part();
                &&& final(self).shadow@ == filled(old(self).shadow@, c, g)
                &&& final(self).dirty == dirty_after(old(self).dirty, c.x1 as int, c.y1 as int, c.x2 as int, c.y2 as int)
            }),
    {
        let c = ScreenRect::clipped(x1, y1, x2, y2);
        if c.x1 >= c.x2 || c.y1 >= c.y2 {
            proof {
                assert(self.shadow@ =~= filled(old(self).shadow@, c, g));
            }
            return;
        }
        let ghost orig = self.shadow@;
        let mut y = c.y1;
        while y < c.y2
            invariant
                final(self.native)@ == final(old(self).native)@,
                final(self.shadow)@ == final(old(self).shadow)@,
                0 <= c.x1 < c.x2 <= SCREEN_W,
                0 <= c.y1 <= y <= c.y2 <= SCREEN_H,
                self.wf(),
                self.same_setting(&*old(self)),
                self.dirty == old(self).dirty,
                self.shadow@.len() == orig.len(),
                forall|i: int| 0 <= i < orig.len() ==> self.shadow@[i] == (
                    if in_region(i, ScreenRect { x1: c.x1, y1: c.y1, x2: c.x2, y2: y }) { g } else { orig[i] }),
            decreases c.y2 - y,
        {
            let mut x = c.x1;
            let base = (y as usize) * SHADOW_STRIDE;
            while x < c.x2
                invariant
                    final(self.native)@ == final(old(self).native)@,
                    final(self.shadow)@ == final(old(self).shadow)@,
                    0 <= c.x1 <= x <= c.x2 <= SCREEN_W,
                    0 <= c.y1 <= y < c.y2 <= SCREEN_H,
                    base == y * SHADOW_STRIDE,
                    self.wf(),
                    self.same_setting(&*old(self)),
                    self.dirty == old(self).dirty,
                    self.shadow@.len() == orig.len(),
                    forall|i: int| 0 <= i < orig.len() ==> self.shadow@[i] == (
                        if in_region(i, ScreenRect { x1: c.x1, y1: c.y1, x2: c.x2, y2: y })
                            || in_region(i, ScreenRect { x1: c.x1, y1: y, x2: x, y2: (y + 1) as i32 }) { g } else { orig[i] }),
                decreases c.x2 - x,
            {
                proof {
                    lemma_shadow_index(x as int, y as int);
                }
                self.shadow[base + x as usize] = g;
                x = x + 1;
            }
            y = y + 1;
        }
        proof {
            assert(self.shadow@ =~= filled(orig, c, g));
        }
        self.dirty_union_rect(c.x1, c.y1, c.x2, c.y2);
        proof {
            lemma_dirty_covers(old(self).dirty, c.x1 as int, c.y1 as int, c.x2 as int, c.y2 as int, 0, 0);
        }
    }

    /// Put a batch of pixels `(x, y, g)` in order, each clipped on its own; the
    /// bounding box of the on-screen ones is marked dirty once.
    pub fn put_pixels(&mut self, pxs: &[(i32, i32, u8)])
        requires
            old(self).wf(),
        ensures
            final(final(self).native)@ == final(old(self).native)@,
            final(final(self).shadow)@ == final(old(self).shadow)@,
            final(self).wf(),
            final(self).same_setting(&*old(self)),
            final(self).shadow@ == pixels_put(old(self).shadow@, pxs@),
            final(self).dirty == (match on_screen_bounds(pxs@) {
                None => old(self).dirty,
                Some((x1, y1, x2, y2)) => dirty_after(old(self).dirty, x1, y1, x2, y2),
            }),
    {
        if pxs.len() == 0 {
            return;
        }
        let mut k: usize = 0;
        while k < pxs.len()
            invariant
                final(self.native)@ == final(old(self).native)@,
                final(self.shadow)@ == final(old(self).shadow)@,
                0 <= k <= pxs@.len(),
                self.wf(),
                self.same_setting(&*old(self)),
                self.dirty == old(self).dirty,
                self.shadow@ == pixels_put(old(self).shadow@, pxs@.take(k as int)),
            decreases pxs@.len() - k,
        {
            let (x, y, g) = pxs[k];
            proof {
                assert(pxs@.take(k + 1).drop_last() =~= pxs@.take(k as int));
                assert(pxs@.take(k + 1).last() == pxs@[k as int]);
            }
            if !(x < 0 || y < 0 || x >= SCREEN_W || y >= SCREEN_H) {
                let bi = (y as usize) * SHADOW_STRIDE + (x as usize);
                self.shadow[bi] = g;
            }
            k = k + 1;
        }
        proof {
            assert(pxs@.take(pxs@.len() as int) =~= pxs@);
        }
        let mut minx: i32 = i32::MAX;
        let mut miny: i32 = i32::MAX;
        let mut maxx: i32 = i32::MIN;
        let mut maxy: i32 = i32::MIN;
        let mut k: usize = 0;
        while k < pxs.len()
            invariant
                final(self.native)@ == final(old(self).native)@,
                final(self.shadow)@ == final(old(self).shadow)@,
                0 <= k <= pxs@.len(),
                on_screen_bounds(pxs@.take(k as int)) is None ==> (
                    minx == i32::MAX && miny == i32::MAX && maxx == i32::MIN && maxy == i32::MIN),
                on_screen_bounds(pxs@.take(k as int)) matches Some((x1, y1, x2, y2)) ==> (
                    minx == x1 && miny == y1 && maxx == x2 && maxy == y2
                    && 0 <= x1 < x2 <= SCREEN_W && 0 <= y1 < y2 <= SCREEN_H),
            decreases pxs@.len() - k,
        {
            let (x, y, _g) = pxs[k];
            proof {
                assert(pxs@.take(k + 1).drop_last() =~= pxs@.take(k as int));
                assert(pxs@.take(k + 1).last() == pxs@[k as int]);
            }
            if !(x < 0 || y < 0 || x >= SCREEN_W || y >= SCREEN_H) {
                if x < minx {
                    minx = x;
                }
                if y < miny {
                    miny = y;
                }
                if x + 1 > maxx {
                    maxx = x + 1;
                }
                if y + 1 > maxy {
                    maxy = y + 1;
                }
            }
            k = k + 1;
        }
        if minx != i32::MAX {
            self.dirty_union_rect(minx, miny, maxx, maxy);
            proof {
                lemma_dirty_covers(old(self).dirty, minx as int, miny as int, maxx as int, maxy as int, 0, 0);
            }
        }
    }

    /// Copy a `width x height` 8bpp image (row-major, stride `width`) to the screen
    /// with its top-left at `(x, y)`, clipped to the screen, and mark the copied block
    /// dirty. Nothing happens for an empty image, one shorter than `width * height`
    /// bytes, or one that lies wholly off the screen.
    pub fn blit(&mut self, img: &[u8], width: usize, height: usize, x: i32, y: i32)
        requires
            old(self).wf(),
        ensures
            final(final(self).native)@ == final(old(self).native)@,
            final(final(self).shadow)@ == final(old(self).shadow)@,
            final(self).wf(),
            final(self).same_setting(&*old(self)),
            ({
                let (sx0, sy0, dx0, dy0, cols, rows) = blit_geometry(width as int, height as int, x as int, y as int);
                if width == 0 || height == 0 || img@.len() < width * height || cols <= 0 || rows <= 0 {
                    &&& final(self).shadow@ == old(self).shadow@
                    &&& final(self).dirty == old(self).dirty
                } else {
                    &&& final(self).shadow@ == blitted(old(self).shadow@, img@, width as int, sx0, sy0, dx0, dy0, cols, rows)
                    &&& final(self).dirty == dirty_after(old(self).dirty, dx0, dy0, dx0 + cols, dy0 + rows)
                }
            }),
    {
        let n: usize = img.len();
        let area: usize = match width.checked_mul(height) {
            Some(a) => a,
            None => return,
        };
        if width == 0 || height == 0 || n < area {
            return;
        }
        let sx0: usize = if x < 0 { (0i64 - x as i64) as usize } else { 0 };
        let sy0: usize = if y < 0 { (0i64 - y as i64) as usize } else { 0 };
        if sx0 >= width || sy0 >= height {
            return;
        }
        let dx0: i32 = if x < 0 { 0 } else { x };
        let dy0: i32 = if y < 0 { 0 } else { y };
        let room_x: usize = if (dx0 as usize) < (SCREEN_W as usize) { (SCREEN_W as usize) - (dx0 as usize) } else { 0 };
        let room_y: usize = if (dy0 as usize) < (SCREEN_H as usize) { (SCREEN_H as usize) - (dy0 as usize) } else { 0 };
        let cols: usize = if width - sx0 <= room_x { width - sx0 } else { room_x };
        let rows: usize = if height - sy0 <= room_y { height - sy0 } else { room_y };
        if cols == 0 || rows == 0 {
            return;
        }
        let ghost orig = self.shadow@;
        let ghost region = ScreenRect { x1: dx0, y1: dy0, x2: (dx0 + cols) as i32, y2: (dy0 + rows) as i32 };
        let mut r: usize = 0;
        while r < rows
            invariant
                final(self.native)@ == final(old(self).native)@,
                final(self.shadow)@ == final(old(self).shadow)@,
                0 <= r <= rows,
                0 < cols <= width - sx0,
                0 < rows <= height - sy0,
                0 <= dx0,
                dx0 + cols <= SCREEN_W,
                0 <= dy0,
                dy0 + rows <= SCREEN_H,
                width * height <= img@.len(),
                width * height <= usize::MAX,
                region == (ScreenRect { x1: dx0, y1: dy0, x2: (dx0 + cols) as i32, y2: (dy0 + rows) as i32 }),
                self.wf(),
                self.same_setting(&*old(self)),
                self.dirty == old(self).dirty,
                self.shadow@.len() == orig.len(),
                forall|i: int| 0 <= i < orig.len() ==> self.shadow@[i] == (
                    if in_region(i, ScreenRect { x1: dx0, y1: dy0, x2: (dx0 + cols) as i32, y2: (dy0 + r) as i32 }) {
                        img@[(sy0 + i / (SHADOW_STRIDE as int) - dy0) * width + sx0 + i % (SHADOW_STRIDE as int) - dx0]
                    } else {
                        orig[i]
                    }),
            decreases rows - r,
        {
            proof {
                lemma_image_index(width as int, height as int, (sy0 + r) as int, sx0 as int);
            }
            let src = (sy0 + r) * width + sx0;
            let dst = ((dy0 as usize) + r) * SHADOW_STRIDE + (dx0 as usize);
            let mut c: usize = 0;
            while c < cols
                invariant
                    final(self.native)@ == final(old(self).native)@,
                    final(self.shadow)@ == final(old(self).shadow)@,
                    0 <= c <= cols,
                    0 <= r < rows,
                    0 < cols <= width - sx0,
                    0 < rows <= height - sy0,
                    0 <= dx0,
                    dx0 + cols <= SCREEN_W,
                    0 <= dy0,
                    dy0 + rows <= SCREEN_H,
                    width * height <= img@.len(),
                    width * height <= usize::MAX,
                    src == (sy0 + r) * width + sx0,
                    dst == (dy0 + r) * SHADOW_STRIDE + dx0,
                    self.wf(),
                    self.same_setting(&*old(self)),
                    self.dirty == old(self).dirty,
                    self.shadow@.len() == orig.len(),
                    forall|i: int| 0 <= i < orig.len() ==> self.shadow@[i] == (
                        if in_region(i, ScreenRect { x1: dx0, y1: dy0, x2: (dx0 + cols) as i32, y2: (dy0 + r) as i32 })
                            || in_region(i, ScreenRect { x1: dx0, y1: (dy0 + r) as i32, x2: (dx0 + c) as i32, y2: (dy0 + r + 1) as i32 }) {
                            img@[(sy0 + i / (SHADOW_STRIDE as int) - dy0) * width + sx0 + i % (SHADOW_STRIDE as int) - dx0]
                        } else {
                            orig[i]
                        }),
                decreases cols - c,
            {
                proof {
                    lemma_image_index(width as int, height as int, (sy0 + r) as int, (sx0 + c) as int);
                    lemma_shadow_index((dx0 + c) as int, (dy0 + r) as int);
                }
                self.shadow[dst + c] = img[src + c];
                c = c + 1;
            }
            r = r + 1;
        }
        proof {
            assert(self.shadow@ =~= blitted(orig, img@, width as int, sx0 as int, sy0 as int, dx0 as int, dy0 as int, cols as int, rows as int));
        }
        self.dirty_union_rect(dx0, dy0, dx0 + cols as i32, dy0 + rows as i32);
        proof {
            lemma_dirty_covers(old(self).dirty, dx0 as int, dy0 as int, dx0 + cols, dy0 + rows, 0, 0);
        }
    }

    /// Copy the screen block `d` of the shadow into the native buffer, rotated 90
    /// degrees clockwise, row by row.
    fn blit_dirty_to_ebc(&mut self, d: ScreenRect)
        requires
            old(self).wf(),
            dirty_ok(Some(d)),
            index_fits(old(self).ebc.spec_stride() as int, d.x1 as int, d.y2 - 1),
        ensures
            final(final(self).native)@ == final(old(self).native)@,
            final(final(self).shadow)@ == final(old(self).shadow)@,
            final(self).native@ == copy_rows(old(self).native@, old(self).shadow@,
                old(self).ebc.spec_stride() as int, d.x1 as int, d.x2 as int, d.y1 as int, d.y2 as int),
            final(self).shadow@ == old(self).shadow@,
            final(self).ebc == old(self).ebc,
            final(self).path == old(self).path,
            final(self).dirty == old(self).dirty,
            final(self).mode == old(self).mode,
            final(self).cancelled == old(self).cancelled,
            final(self).flushed == old(self).flushed,
    {
        let native_stride = self.ebc.stride();
        let native_len = self.native.len();
        let x1 = clamp_i32(d.x1, 0, SCREEN_W);
        let x2 = clamp_i32(d.x2, 0, SCREEN_W);
        let y1 = clamp_i32(d.y1, 0, SCREEN_H);
        let y2 = clamp_i32(d.y2, 0, SCREEN_H);
        let ghost stride = native_stride as int;
        let ghost orig = self.native@;
        let mut sy = y1;
        while sy < y2
            invariant
                final(self.native)@ == final(old(self).native)@,
                final(self.shadow)@ == final(old(self).shadow)@,
                x1 == d.x1,
                x2 == d.x2,
                y1 == d.y1,
                y2 == d.y2,
                0 <= x1 < x2 <= SCREEN_W,
                0 <= y1 <= sy <= y2 <= SCREEN_H,
                stride == native_stride,
                native_stride == self.ebc.spec_stride(),
                native_len == self.native@.len(),
                index_fits(stride, x1 as int, y2 - 1),
                self.wf(),
                self.shadow@ == old(self).shadow@,
                self.ebc == old(self).ebc,
                self.path == old(self).path,
                self.dirty == old(self).dirty,
                self.mode == old(self).mode,
                self.cancelled == old(self).cancelled,
                self.flushed == old(self).flushed,
                self.native@ == copy_rows(orig, self.shadow@, stride, x1 as int, x2 as int, y1 as int, sy as int),
            decreases y2 - sy,
        {
            let shadow_row = (sy as usize) * SHADOW_STRIDE;
            let ghost row_start = self.native@;
            let mut sx = x1;
            while sx < x2
                invariant
                    final(self.native)@ == final(old(self).native)@,
                    final(self.shadow)@ == final(old(self).shadow)@,
                    0 <= x1 <= sx <= x2 <= SCREEN_W,
                    0 <= y1 <= sy < y2 <= SCREEN_H,
                    shadow_row == sy * SHADOW_STRIDE,
                    stride == native_stride,
                    native_stride == self.ebc.spec_stride(),
                    native_len == self.native@.len(),
                    index_fits(stride, x1 as int, y2 - 1),
                    self.wf(),
                    self.shadow@ == old(self).shadow@,
                    self.ebc == old(self).ebc,
                    self.path == old(self).path,
                    self.dirty == old(self).dirty,
                    self.mode == old(self).mode,
                    self.cancelled == old(self).cancelled,
                    self.flushed == old(self).flushed,
                    self.native@ == copy_row(row_start, self.shadow@, stride, sy as int, x1 as int, sx as int),
                decreases x2 - sx,
            {
                proof {
                    lemma_index_monotone(stride, sx as int, sy as int, x1 as int, y2 - 1);
                }
                let by = (BUF_H - 1 - sx) as usize;
                let bx = sy as usize;
                proof {
                    assert(native_index(stride, sx as int, sy as int) == by * native_stride + bx) by (nonlinear_arith)
                        requires by == BUF_H - 1 - sx, bx == sy, stride == native_stride;
                }
                let nbi = by * native_stride + bx;
                if nbi < native_len {
                    let v = self.shadow[shadow_row + sx as usize];
                    self.native[nbi] = v;
                }
                sx = sx + 1;
            }
            sy = sy + 1;
        }
    }

    /// Flush now: copy the dirty region of the shadow into the native buffer (rotated)
    /// and give the one request that refreshes it, then start collecting a new dirty
    /// region. Writes after a flush are flushed by a further `flush` (dropping the
    /// scope does not flush again). A cancelled scope, or one with nothing dirty,
    /// gives no request.
    pub fn flush(&mut self) -> (r: Option<IoctlRequest>)
        requires
            old(self).wf(),
            old(self).dirty matches Some(d) ==> index_fits(old(self).ebc.spec_stride() as int, d.x1 as int, d.y2 - 1),
        ensures
            final(final(self).native)@ == final(old(self).native)@,
            final(final(self).shadow)@ == final(old(self).shadow)@,
            final(self).wf(),
            final(self).shadow@ == old(self).shadow@,
            final(self).ebc == old(self).ebc,
            final(self).path == old(self).path,
            final(self).mode == old(self).mode,
            final(self).cancelled == old(self).cancelled,
            old(self).cancelled ==> {
                &&& r is None
                &&& final(self).native@ == old(self).native@
                &&& final(self).dirty == old(self).dirty
                &&& final(self).flushed == old(self).flushed
            },
            !old(self).cancelled ==> {
                &&& final(self).flushed
                &&& final(self).dirty is None
                &&& match old(self).dirty {
                    None => r is None && final(self).native@ == old(self).native@,
                    Some(d) => {
                        &&& r matches Some(req) && is_refresh_request(req, *old(self).ebc, old(self).path, d, old(self).mode)
                        &&& final(self).native@ == copy_rows(old(self).native@, old(self).shadow@,
                            old(self).ebc.spec_stride() as int, d.x1 as int, d.x2 as int, d.y1 as int, d.y2 as int)
                    },
                }
            },
    {
        if self.cancelled {
            return None;
        }
        let dirty = match self.dirty {
            Some(r) => r,
            None => {
                self.flushed = true;
                return None;
            },
        };
        self.blit_dirty_to_ebc(dirty);
        let r = refresh_request(self.ebc, self.path, dirty, self.mode);
        self.flushed = true;
        self.dirty = None;
        Some(r)
    }

    /// What ending the scope does: flush it, unless it was cancelled or has already
    /// been flushed, in which case nothing happens.
    pub fn finish(&mut self) -> (r: Option<IoctlRequest>)
        requires
            old(self).wf(),
            old(self).dirty matches Some(d) ==> index_fits(old(self).ebc.spec_stride() as int, d.x1 as int, d.y2 - 1),
        ensures
            final(final(self).native)@ == final(old(self).native)@,
            final(final(self).shadow)@ == final(old(self).shadow)@,
            final(self).wf(),
            final(self).shadow@ == old(self).shadow@,
            final(self).ebc == old(self).ebc,
            final(self).path == old(self).path,
            final(self).mode == old(self).mode,
            final(self).cancelled == old(self).cancelled,
            old(self).cancelled || old(self).flushed ==> {
                &&& r is None
                &&& final(self).native@ == old(self).native@
                &&& final(self).dirty == old(self).dirty
                &&& final(self).flushed == old(self).flushed
            },
            !old(self).cancelled && !old(self).flushed ==> {
                &&& final(self).flushed
                &&& final(self).dirty is None
                &&& scope_flushed(*old(self), r, final(self).native@)
            },
    {
        if self.cancelled || self.flushed {
            return None;
        }
        self.flush()
    }

    /// Set the waveform for the flush (`None`: the path default).
    pub fn set_mode(&mut self, mode: Option<Mode>)
        ensures
            final(final(self).native)@ == final(old(self).native)@,
            final(final(self).shadow)@ == final(old(self).shadow)@,
            final(self).mode == mode,
            final(self).ebc == old(self).ebc,
            final(self).path == old(self).path,
            final(self).native@ == old(self).native@,
            final(self).shadow@ == old(self).shadow@,
            final(self).dirty == old(self).dirty,
            final(self).cancelled == old(self).cancelled,
            final(self).flushed == old(self).flushed,
    {
        self.mode = mode;
    }

    /// Discard the scope: no refresh is issued when it is dropped. The shadow keeps
    /// what was written.
    pub fn cancel(&mut self)
        ensures
            final(final(self).native)@ == final(old(self).native)@,
            final(final(self).shadow)@ == final(old(self).shadow)@,
            final(self).cancelled,
            final(self).ebc == old(self).ebc,
            final(self).path == old(self).path,
            final(self).native@ == old(self).native@,
            final(self).shadow@ == old(self).shadow@,
            final(self).dirty == old(self).dirty,
            final(self).mode == old(self).mode,
            final(self).flushed == old(self).flushed,
    {
        self.cancelled = true;
    }

    /// Mark the screen region `rect` dirty (half-open, corners in any order, clipped
    /// to the screen), e.g. after writing through [`Draw::raw_shadow_mut`]. The dirty
    /// rectangle stays on the screen and keeps covering what it covered
    /// ([`lemma_dirty_covers`]), and the order of the marks does not matter
    /// ([`lemma_dirty_order`]).
    pub fn dirty_union(&mut self, rect: ScreenRect)
        requires
            old(self).wf(),
        ensures
            final(final(self).native)@ == final(old(self).native)@,
            final(final(self).shadow)@ == final(old(self).shadow)@,
            final(self).wf(),
            final(self).same_setting(&*old(self)),
            final(self).shadow@ == old(self).shadow@,
            final(self).dirty == dirty_after(old(self).dirty,
                min_int(rect.x1 as int, rect.x2 as int), min_int(rect.y1 as int, rect.y2 as int),
                max_int(rect.x1 as int, rect.x2 as int), max_int(rect.y1 as int, rect.y2 as int)),
    {
        let (lx, hx) = if rect.x1 <= rect.x2 { (rect.x1, rect.x2) } else { (rect.x2, rect.x1) };
        let (ly, hy) = if rect.y1 <= rect.y2 { (rect.y1, rect.y2) } else { (rect.y2, rect.y1) };
        self.dirty_union_rect(lx, ly, hx, hy);
        proof {
            lemma_dirty_covers(old(self).dirty, lx as int, ly as int, hx as int, hy as int, 0, 0);
        }
    }

    /// Direct access to the shadow canvas and its stride (`SCREEN_W`): row-major,
    /// `buf[y * stride + x]`, screen coordinates. Regions written through it must be
    /// marked with [`Draw::dirty_union`] to be flushed.
    pub fn raw_shadow_mut(&mut self) -> (r: (&mut [u8], usize))
        ensures
            final(final(self).native)@ == final(old(self).native)@,
            r.0@ == old(self).shadow@,
            r.1 == SHADOW_STRIDE,
            final(self).shadow@ == final(r.0)@,
            final(self).same_setting(&*old(self)),
            final(self).dirty == old(self).dirty,
    {
        (&mut *self.shadow, SHADOW_STRIDE)
    }
}

/// What flushing the scope `d` gives: no request and the native buffer as the scope
/// holds it when `d` is cancelled or has nothing dirty; otherwise the refresh request
/// of its dirty region and the native buffer with that region copied from the shadow.
pub open spec fn scope_flushed(d: Draw, req: Option<IoctlRequest>, native_after: Seq<u8>) -> bool {
    if d.cancelled {
        req is None && native_after == d.native@
    } else {
        match d.dirty {
            None => req is None && native_after == d.native@,
            Some(dd) => {
                &&& req matches Some(q) && is_refresh_request(q, *d.ebc, d.path, dd, d.mode)
                &&& native_after == copy_rows(d.native@, d.shadow@, d.ebc.spec_stride() as int,
                    dd.x1 as int, dd.x2 as int, dd.y1 as int, dd.y2 as int)
            },
        }
    }
}

impl<'s> Surface<'s> {
    /// Begin a batch-write scope on this surface: writes go to the surface's shadow
    /// canvas (kept from the previous scope, or all white when new), flushing copies
    /// them to the surface's native buffer.
    pub fn draw(&mut self) -> (d: Draw<'_>)
        ensures
            d.wf(),
            d.ebc == old(self).ebc,
            d.path == old(self).path,
            d.native@ == old(self).native@,
            d.shadow@ == old(self).shadow.prepared(SHADOW_BYTES as nat),
            d.dirty is None,
            d.mode is None,
            !d.cancelled,
            !d.flushed,
            final(self).native@ == final(d.native)@,
            final(self).shadow.buf matches Some(b) && b@ == final(d.shadow)@,
            final(d.shadow)@.len() == SHADOW_BYTES
                ==> final(self).shadow.prepared(SHADOW_BYTES as nat) == final(d.shadow)@,
            final(self).ebc == old(self).ebc,
            final(self).path == old(self).path,
            final(self).enabled == old(self).enabled,
    {
        let ebc = self.ebc;
        let path = self.path;
        let native: &mut [u8] = &mut *self.native;
        let shadow = self.shadow.get_mut(SHADOW_BYTES);
        Draw { ebc, path, native, shadow, dirty: None, mode: None, cancelled: false, flushed: false }
    }

    /// Run `f` in a fresh draw scope and flush the scope `f` leaves (unless `f`
    /// cancelled it): `f`'s result and the refresh request of the flush. The surface
    /// keeps the shadow `f` left, and the next scope starts from it.
    pub fn draw_with<R, F: FnOnce(&mut Draw) -> R>(&mut self, f: F) -> (r: (R, Option<IoctlRequest>))
        requires
            index_fits(old(self).ebc.spec_stride() as int, 0, SCREEN_H - 1),
            forall|d: &mut Draw| d.wf() ==> #[trigger] f.requires((d,)),
            forall|d: &mut Draw, res: R| #[trigger] f.ensures((d,), res) ==> {
                &&& final(d).wf()
                &&& final(d).ebc == d.ebc
                &&& final(d).path == d.path
                &&& final(final(d).native)@ == final(d.native)@
                &&& final(final(d).shadow)@ == final(d.shadow)@
            },
        ensures
            exists|d0: &mut Draw| {
                &&& #[trigger] f.ensures((d0,), r.0)
                &&& d0.wf()
                &&& d0.ebc == old(self).ebc
                &&& d0.path == old(self).path
                &&& d0.native@ == old(self).native@
                &&& d0.shadow@ == old(self).shadow.prepared(SHADOW_BYTES as nat)
                &&& d0.dirty is None
                &&& d0.mode is None
                &&& !d0.cancelled
                &&& !d0.flushed
                &&& scope_flushed(*final(d0), r.1, final(self).native@)
                &&& final(self).shadow.buf matches Some(b) && b@ == final(d0).shadow@
                &&& final(self).shadow.prepared(SHADOW_BYTES as nat) == final(d0).shadow@
            },
            final(self).ebc == old(self).ebc,
            final(self).path == old(self).path,
            final(self).enabled == old(self).enabled,
    {
        let mut d = self.draw();
        let dref = &mut d;
        let ghost start = *dref;
        let r = f(dref);
        let ghost after = d;
        // The scope as `f` received it; its final value is what `f` left.
        let ghost d0 = choose|q: &mut Draw| f.ensures((q,), r) && *q == start && *final(q) == after;
        proof {
            if let Some(dd) = d.dirty {
                lemma_index_monotone(d.ebc.spec_stride() as int, dd.x1 as int, dd.y2 - 1, 0, SCREEN_H - 1);
            }
        }
        let req = d.flush();
        proof {
            assert(has_resolved(d));
            assert(scope_flushed(after, req, d.native@));
        }
        let out = (r, req);
        proof {
            assert(f.ensures((d0,), out.0));
        }
        out
    }
}

/// The shadow and dirty rectangle after [`Draw::put_pixel`]`(x, y, g)`.
pub open spec fn put_one(st: (Seq<u8>, Option<ScreenRect>), x: int, y: int, g: u8) -> (Seq<u8>, Option<ScreenRect>) {
    if on_screen(x, y) {
        (st.0.update(shadow_index(x, y), g), dirty_after(st.1, x, y, x + 1, y + 1))
    } else {
        st
    }
}

/// Row `dy` of a disk stamp: the points `(cx + dx, cy + dy)` with `-r <= dx < e`
/// and `dx * dx + dy * dy <= r * r`, put left to right.
pub open spec fn stamp_row(st: (Seq<u8>, Option<ScreenRect>), cx: int, cy: int, r: int, dy: int, e: int, g: u8) -> (Seq<u8>, Option<ScreenRect>)
    decreases e + r,
{
    if e <= -r {
        st
    } else {
        let p = stamp_row(st, cx, cy, r, dy, e - 1, g);
        let dx = e - 1;
        if dx * dx + dy * dy <= r * r {
            put_one(p, cx + dx, cy + dy, g)
        } else {
            p
        }
    }
}

/// The rows `-r <= dy < e` of a disk stamp, top to bottom.
pub open spec fn stamp_rows(st: (Seq<u8>, Option<ScreenRect>), cx: int, cy: int, r: int, e: int, g: u8) -> (Seq<u8>, Option<ScreenRect>)
    decreases e + r,
{
    if e <= -r {
        st
    } else {
        stamp_row(stamp_rows(st, cx, cy, r, e - 1, g), cx, cy, r, e - 1, r + 1, g)
    }
}

/// Stamp a filled disk of radius `r` and gray `g` centred on screen `(cx, cy)`:
/// every point `(cx + dx, cy + dy)` with `dx * dx + dy * dy <= r * r` is put, row by
/// row, as by [`Draw::put_pixel`].
pub fn stamp_disk(d: &mut Draw, cx: i32, cy: i32, r: i32, g: u8)
    requires
        old(d).wf(),
        -46340 <= r <= 32767,
        r >= 0 ==> i32::MIN <= cx - r && cx + r <= i32::MAX && i32::MIN <= cy - r && cy + r <= i32::MAX,
    ensures
        final(final(d).native)@ == final(old(d).native)@,
        final(final(d).shadow)@ == final(old(d).shadow)@,
        final(d).wf(),
        final(d).same_setting(&*old(d)),
        (final(d).shadow@, final(d).dirty) == stamp_rows((old(d).shadow@, old(d).dirty), cx as int, cy as int, r as int, r + 1, g),
{
    if r < 0 {
        return;
    }
    proof {
        assert(0 <= r * r <= 32767 * 32767) by (nonlinear_arith)
            requires 0 <= r <= 32767;
    }
    let r2 = r * r;
    let mut dy: i32 = -r;
    while dy <= r
        invariant
            final(d.native)@ == final(old(d).native)@,
            final(d.shadow)@ == final(old(d).shadow)@,
            0 <= r <= 32767,
            r2 == r * r,
            i32::MIN <= cx - r && cx + r <= i32::MAX && i32::MIN <= cy - r && cy + r <= i32::MAX,
            -r <= dy <= r + 1,
            d.wf(),
            d.same_setting(&*old(d)),
            (d.shadow@, d.dirty) == stamp_rows((old(d).shadow@, old(d).dirty), cx as int, cy as int, r as int, dy as int, g),
        decreases r + 1 - dy,
    {
        let ghost row_start = (d.shadow@, d.dirty);
        let mut dx: i32 = -r;
        while dx <= r
            invariant
                final(d.native)@ == final(old(d).native)@,
                final(d.shadow)@ == final(old(d).shadow)@,
                0 <= r <= 32767,
                r2 == r * r,
                i32::MIN <= cx - r && cx + r <= i32::MAX && i32::MIN <= cy - r && cy + r <= i32::MAX,
                -r <= dy <= r,
                -r <= dx <= r + 1,
                d.wf(),
                d.same_setting(&*old(d)),
                (d.shadow@, d.dirty) == stamp_row(row_start, cx as int, cy as int, r as int, dy as int, dx as int, g),
            decreases r + 1 - dx,
        {
            proof {
                assert(0 <= dx * dx <= r * r && 0 <= dy * dy <= r * r) by (nonlinear_arith)
                    requires -r <= dx <= r, -r <= dy <= r;
                assert(0 <= r * r <= 32767 * 32767) by (nonlinear_arith)
                    requires 0 <= r <= 32767;
            }
            if dx * dx + dy * dy <= r2 {
                d.put_pixel(cx + dx, cy + dy, g);
            }
            dx = dx + 1;
        }
        dy = dy + 1;
    }
}

/// The point `(cx + dx, cy + dy)` lies in the disk of radius `r` centred on
/// `(cx, cy)`.
pub open spec fn in_disk(dx: int, dy: int, r: int) -> bool {
    dx * dx + dy * dy <= r * r
}

/// The dirty rectangle covers screen point `(x, y)`.
pub open spec fn dirty_has(dirty: Option<ScreenRect>, x: int, y: int) -> bool {
    dirty matches Some(d) && d.covers(x, y)
}

/// The rectangle `n` lies within the bounding box of `dirty` (when there is one) and
/// the box `[lx, hx) x [ly, hy)`.
pub open spec fn within_box(n: ScreenRect, dirty: Option<ScreenRect>, lx: int, ly: int, hx: int, hy: int) -> bool {
    match dirty {
        None => lx <= n.x1 && ly <= n.y1 && n.x2 <= hx && n.y2 <= hy,
        Some(d) => {
            &&& min_int(d.x1 as int, lx) <= n.x1
            &&& min_int(d.y1 as int, ly) <= n.y1
            &&& n.x2 <= max_int(d.x2 as int, hx)
            &&& n.y2 <= max_int(d.y2 as int, hy)
        },
    }
}

/// Two on-screen pixels share a shadow index only when they are the same pixel.
proof fn lemma_shadow_index_injective(x: int, y: int, u: int, v: int)
    requires
        on_screen(x, y),
        on_screen(u, v),
        shadow_index(x, y) == shadow_index(u, v),
    ensures
        x == u && y == v,
{
    lemma_shadow_index(x, y);
    lemma_shadow_index(u, v);
}

/// One row of a stamp puts `g` at the on-screen points of the row `cy + dy` with
/// `-r <= x - cx < e` that lie in the disk, leaves every other pixel, keeps what the
/// dirty rectangle covered and adds the points it put.
proof fn lemma_stamp_row(st: (Seq<u8>, Option<ScreenRect>), cx: int, cy: int, r: int, dy: int, e: int, g: u8)
    requires
        st.0.len() == SHADOW_BYTES,
        dirty_ok(st.1),
        r >= 0,
    ensures
        ({
            let res = stamp_row(st, cx, cy, r, dy, e, g);
            &&& res.0.len() == SHADOW_BYTES
            &&& dirty_ok(res.1)
            &&& forall|x: int, y: int| on_screen(x, y) ==> #[trigger] res.0[shadow_index(x, y)] == (
                if y == cy + dy && -r <= x - cx < e && in_disk(x - cx, dy, r) { g } else { st.0[shadow_index(x, y)] })
            &&& forall|x: int, y: int| #[trigger] dirty_has(res.1, x, y) <== dirty_has(st.1, x, y)
                || (on_screen(x, y) && y == cy + dy && -r <= x - cx < e && in_disk(x - cx, dy, r))
            &&& res.1 matches Some(n) ==> within_box(n, st.1, cx - r, cy - r, cx + r + 1, cy + r + 1)
            &&& res.1 is None ==> st.1 is None
        }),
    decreases e + r,
{
    if e > -r {
        let p = stamp_row(st, cx, cy, r, dy, e - 1, g);
        lemma_stamp_row(st, cx, cy, r, dy, e - 1, g);
        let dx = e - 1;
        if in_disk(dx, dy, r) && on_screen(cx + dx, cy + dy) {
            let res = stamp_row(st, cx, cy, r, dy, e, g);
            assert(res == put_one(p, cx + dx, cy + dy, g));
            lemma_shadow_index(cx + dx, cy + dy);
            assert forall|x: int, y: int| on_screen(x, y) implies #[trigger] res.0[shadow_index(x, y)] == (
                if y == cy + dy && -r <= x - cx < e && in_disk(x - cx, dy, r) { g } else { st.0[shadow_index(x, y)] }) by {
                lemma_shadow_index(x, y);
                if shadow_index(x, y) == shadow_index(cx + dx, cy + dy) {
                    lemma_shadow_index_injective(x, y, cx + dx, cy + dy);
                }
            }
            assert forall|x: int, y: int| #[trigger] dirty_has(res.1, x, y) <== dirty_has(st.1, x, y)
                || (on_screen(x, y) && y == cy + dy && -r <= x - cx < e && in_disk(x - cx, dy, r)) by {
                lemma_dirty_covers(p.1, cx + dx, cy + dy, cx + dx + 1, cy + dy + 1, x, y);
                if dirty_has(st.1, x, y) || (on_screen(x, y) && y == cy + dy && -r <= x - cx < e - 1 && in_disk(x - cx, dy, r)) {
                    assert(dirty_has(p.1, x, y));
                }
            }
            lemma_dirty_covers(p.1, cx + dx, cy + dy, cx + dx + 1, cy + dy + 1, 0, 0);
            assert(-r <= dx <= r && -r <= dy <= r) by (nonlinear_arith)
                requires dx * dx + dy * dy <= r * r, r >= 0;
        }
    }
}

/// The rows `-r <= y - cy < e` of a stamp: `g` at their on-screen points in the
/// disk, every other pixel kept, the dirty rectangle growing to cover them.
proof fn lemma_stamp_rows(st: (Seq<u8>, Option<ScreenRect>), cx: int, cy: int, r: int, e: int, g: u8)
    requires
        st.0.len() == SHADOW_BYTES,
        dirty_ok(st.1),
        r >= 0,
    ensures
        ({
            let res = stamp_rows(st, cx, cy, r, e, g);
            &&& res.0.len() == SHADOW_BYTES
            &&& dirty_ok(res.1)
            &&& forall|x: int, y: int| on_screen(x, y) ==> #[trigger] res.0[shadow_index(x, y)] == (
                if -r <= y - cy < e && -r <= x - cx <= r && in_disk(x - cx, y - cy, r) { g } else { st.0[shadow_index(x, y)] })
            &&& forall|x: int, y: int| #[trigger] dirty_has(res.1, x, y) <== dirty_has(st.1, x, y)
                || (on_screen(x, y) && -r <= y - cy < e && -r <= x - cx <= r && in_disk(x - cx, y - cy, r))
            &&& res.1 matches Some(n) ==> within_box(n, st.1, cx - r, cy - r, cx + r + 1, cy + r + 1)
            &&& res.1 is None ==> st.1 is None
        }),
    decreases e + r,
{
    if e > -r {
        let p = stamp_rows(st, cx, cy, r, e - 1, g);
        lemma_stamp_rows(st, cx, cy, r, e - 1, g);
        lemma_stamp_row(p, cx, cy, r, e - 1, r + 1, g);
    }
}

/// What stamping a disk does, over all inputs: with `r >= 0`, the on-screen pixel
/// `(x, y)` holds `g` exactly when `(x - cx)^2 + (y - cy)^2 <= r^2` (so the four
/// points at distance `r` on the axes are stamped) and keeps its gray otherwise; the
/// dirty rectangle stays on the screen, keeps what it covered, covers every stamped
/// pixel and grows no further than the disk's bounding box. A negative radius stamps
/// nothing.
pub proof fn lemma_stamp_disk(shadow: Seq<u8>, dirty: Option<ScreenRect>, cx: int, cy: int, r: int, g: u8)
    requires
        shadow.len() == SHADOW_BYTES,
        dirty_ok(dirty),
    ensures
        ({
            let res = stamp_rows((shadow, dirty), cx, cy, r, r + 1, g);
            &&& r < 0 ==> res == (shadow, dirty)
            &&& r >= 0 ==> {
                &&& res.0.len() == SHADOW_BYTES
                &&& dirty_ok(res.1)
                &&& forall|x: int, y: int| on_screen(x, y) ==> #[trigger] res.0[shadow_index(x, y)] == (
                    if (x - cx) * (x - cx) + (y - cy) * (y - cy) <= r * r { g } else { shadow[shadow_index(x, y)] })
                &&& forall|x: int, y: int| #[trigger] dirty_has(res.1, x, y) <== dirty_has(dirty, x, y)
                    || (on_screen(x, y) && (x - cx) * (x - cx) + (y - cy) * (y - cy) <= r * r)
                &&& res.1 matches Some(n) ==> within_box(n, dirty, cx - r, cy - r, cx + r + 1, cy + r + 1)
                &&& res.1 is None ==> dirty is None
            }
        }),
{
    if r >= 0 {
        lemma_stamp_rows((shadow, dirty), cx, cy, r, r + 1, g);
        assert forall|a: int, b: int| #[trigger] in_disk(a, b, r) implies -r <= a <= r && -r <= b <= r by {
            assert(-r <= a <= r && -r <= b <= r) by (nonlinear_arith)
                requires a * a + b * b <= r * r, r >= 0;
        }
        let res = stamp_rows((shadow, dirty), cx, cy, r, r + 1, g);
        assert forall|x: int, y: int| on_screen(x, y) implies #[trigger] res.0[shadow_index(x, y)] == (
            if (x - cx) * (x - cx) + (y - cy) * (y - cy) <= r * r { g } else { shadow[shadow_index(x, y)] }) by {
            assert(in_disk(x - cx, y - cy, r) == ((x - cx) * (x - cx) + (y - cy) * (y - cy) <= r * r));
        }
        assert forall|x: int, y: int| #[trigger] dirty_has(res.1, x, y) <== dirty_has(dirty, x, y)
            || (on_screen(x, y) && (x - cx) * (x - cx) + (y - cy) * (y - cy) <= r * r) by {
            assert(in_disk(x - cx, y - cy, r) == ((x - cx) * (x - cx) + (y - cy) * (y - cy) <= r * r));
        }
    }
}

} // verus!
