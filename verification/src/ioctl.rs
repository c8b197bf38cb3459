//! Raw integer ioctl request codes and the `ebc_buf_info` record of the Rockchip EBC
//! driver ("y8" fork: 68 bytes, 0x7000..0x7018).

use vstd::prelude::*;

verus! {

pub const EBC_GET_BUFFER: u32 = 0x7000;
pub const EBC_SEND_BUFFER: u32 = 0x7001;
pub const EBC_GET_BUFFER_INFO: u32 = 0x7002;
pub const EBC_SET_FULL_MODE_NUM: u32 = 0x7003;
pub const EBC_ENABLE_OVERLAY: u32 = 0x7004;
pub const EBC_DISABLE_OVERLAY: u32 = 0x7005;
pub const EBC_GET_OSD_BUFFER: u32 = 0x7006;
pub const EBC_SEND_OSD_BUFFER: u32 = 0x7007;
pub const EBC_NEW_BUF_PREPARE: u32 = 0x7008;
pub const EBC_SET_DIFF_PERCENT: u32 = 0x7009;
pub const EBC_WAIT_NEW_BUF_TIME: u32 = 0x700a;
pub const EBC_GET_OVERLAY_STATUS: u32 = 0x700b;
pub const EBC_ENABLE_BG_CONTROL: u32 = 0x700c;
pub const EBC_DISABLE_BG_CONTROL: u32 = 0x700d;
pub const EBC_GET_BUF_FORMAT: u32 = 0x7010;
pub const EBC_SET_FB_BLANK: u32 = 0x7013;
pub const EBC_SET_FB_UNBLANK: u32 = 0x7014;

/// Buffer format code for 4 bits per pixel.
pub const EBC_Y4: i32 = 0;

/// Buffer format code for 8 bits per pixel.
pub const EBC_Y8: i32 = 1;

/// Size in bytes of the driver's `struct ebc_buf_info` on this device.
pub const EBC_BUF_INFO_SIZE: usize = 68;

/// The driver's `struct ebc_buf_info` (y8 fork): eleven ints, `dropable`,
/// a 16-byte `tid_name` and `dma_buf_fd`, 68 bytes in C layout.
#[derive(Clone, Copy, Debug)]
pub struct EbcBufInfo {
    pub offset: i32,
    pub epd_mode: i32,
    pub height: i32,
    pub width: i32,
    pub panel_color: i32,
    pub win_x1: i32,
    pub win_y1: i32,
    pub win_x2: i32,
    pub win_y2: i32,
    pub width_mm: i32,
    pub height_mm: i32,
    pub dropable: i32,
    pub tid_name: [u8; 16],
    pub dma_buf_fd: i32,
}

impl EbcBufInfo {
    /// Every integer field is zero and `tid_name` is sixteen zero bytes.
    pub open spec fn is_zeroed(self) -> bool {
        &&& self.offset == 0
        &&& self.epd_mode == 0
        &&& self.height == 0
        &&& self.width == 0
        &&& self.panel_color == 0
        &&& self.win_x1 == 0
        &&& self.win_y1 == 0
        &&& self.win_x2 == 0
        &&& self.win_y2 == 0
        &&& self.width_mm == 0
        &&& self.height_mm == 0
        &&& self.dropable == 0
        &&& self.tid_name@ == Seq::new(16, |i: int| 0u8)
        &&& self.dma_buf_fd == 0
    }

    /// The record of a refresh call: `offset`, `epd_mode`, `width`, `height` and the
    /// `win_*` window as given, every other field zero.
    pub open spec fn is_refresh_info(self, offset: i32, epd_mode: i32, w: i32, h: i32, rect: Rect) -> bool {
        &&& self.offset == offset
        &&& self.epd_mode == epd_mode
        &&& self.height == h
        &&& self.width == w
        &&& self.panel_color == 0
        &&& self.win_x1 == rect.x1
        &&& self.win_y1 == rect.y1
        &&& self.win_x2 == rect.x2
        &&& self.win_y2 == rect.y2
        &&& self.width_mm == 0
        &&& self.height_mm == 0
        &&& self.dropable == 0
        &&& self.tid_name@ == Seq::new(16, |i: int| 0u8)
        &&& self.dma_buf_fd == 0
    }

    /// All-zero info with only `offset`/`epd_mode`/size/`win_*` set, for a refresh call
    /// (`dropable = 0`: droppable, `dma_buf_fd = 0`: none).
    pub fn for_refresh(offset: i32, epd_mode: i32, w: i32, h: i32, rect: Rect) -> (r: Self)
        ensures
            r.is_refresh_info(offset, epd_mode, w, h, rect),
    {
        let mut s = EbcBufInfo::default();
        s.offset = offset;
        s.epd_mode = epd_mode;
        s.height = h;
        s.width = w;
        s.win_x1 = rect.x1;
        s.win_y1 = rect.y1;
        s.win_x2 = rect.x2;
        s.win_y2 = rect.y2;
        s
    }
}

impl Default for EbcBufInfo {
    fn default() -> (r: Self)
        ensures
            r.is_zeroed(),
    {
        let r = EbcBufInfo {
            offset: 0,
            epd_mode: 0,
            height: 0,
            width: 0,
            panel_color: 0,
            win_x1: 0,
            win_y1: 0,
            win_x2: 0,
            win_y2: 0,
            width_mm: 0,
            height_mm: 0,
            dropable: 0,
            tid_name: [0u8; 16],
            dma_buf_fd: 0,
        };
        assert(r.tid_name@ =~= Seq::new(16, |i: int| 0u8));
        r
    }
}

/// Half-open native-buffer rectangle `[x1, x2) x [y1, y2)`.
#[derive(Clone, Copy, Debug, Default)]
pub struct Rect {
    pub x1: i32,
    pub y1: i32,
    pub x2: i32,
    pub y2: i32,
}

impl Rect {
    /// The point lies in the half-open rectangle.
    pub open spec fn holds(self, x: int, y: int) -> bool {
        self.x1 <= x < self.x2 && self.y1 <= y < self.y2
    }

    /// The rectangle with the given corners.
    pub fn new(x1: i32, y1: i32, x2: i32, y2: i32) -> (r: Self)
        ensures
            r == (Rect { x1, y1, x2, y2 }),
    {
        Rect { x1, y1, x2, y2 }
    }

    /// `[0, w) x [0, h)`.
    pub fn full(w: i32, h: i32) -> (r: Self)
        ensures
            r == (Rect { x1: 0, y1: 0, x2: w, y2: h }),
    {
        Rect { x1: 0, y1: 0, x2: w, y2: h }
    }
}

/// The argument an ioctl request carries.
#[derive(Clone, Copy, Debug)]
pub enum IoctlArg {
    /// A null pointer.
    NoArg,
    /// A pointer to an `ebc_buf_info` record.
    Info(EbcBufInfo),
    /// A pointer to one `int`.
    Int(i32),
}

/// One ioctl call on the EBC device: file descriptor, raw request code and argument.
#[derive(Clone, Copy, Debug)]
pub struct IoctlRequest {
    pub fd: i32,
    pub cmd: u32,
    pub arg: IoctlArg,
}

} // verus!
