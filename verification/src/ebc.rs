//! The `/dev/ebc` device: what opening it found out (geometry, format, buffer
//! offsets, the mapping) and the ioctl requests issued on it.

use crate::ioctl::{EbcBufInfo, IoctlArg, IoctlRequest, EBC_Y8};
use vstd::prelude::*;

verus! {

/// Default mapping span: 32 MiB covers the main buffer (at 10 MiB) and the OSD buffer
/// (at 20 MiB) with margin.
pub const MMAP_SIZE: usize = 0x200_0000;

/// Handle on `/dev/ebc`: the file descriptor, the mapping (address 0 and length 0
/// when the device was opened for information only) and what the driver reported.
pub struct Ebc {
    /// The open file descriptor.
    pub fd: i32,
    /// Address of the mapping, `0` when the device is not mapped.
    pub map_addr: usize,
    /// Length of the mapping, `0` when the device is not mapped.
    pub map_len: usize,
    /// Native buffer width (landscape), 2480 on this device.
    pub width: i32,
    /// Native buffer height (landscape), 1860 on this device.
    pub height: i32,
    pub panel_color: i32,
    pub width_mm: i32,
    pub height_mm: i32,
    /// Buffer format from `EBC_GET_BUF_FORMAT` (`EBC_Y4` or `EBC_Y8`), `-1` when the
    /// driver did not answer.
    pub buf_format: i32,
    /// Main display-buffer offset from `EBC_GET_BUFFER`, `0` when not acquired.
    pub main_offset: i32,
    /// OSD buffer offset from `EBC_GET_OSD_BUFFER`.
    pub osd_offset: i32,
}

impl Ebc {
    /// Assemble the handle from what the device answered when it was opened.
    ///
    /// `info` is the answer to `EBC_GET_BUFFER_INFO`; `fmt` the value left by
    /// `EBC_GET_BUF_FORMAT` (`-1` when it did not answer); `main` and `osd` the answers
    /// to `EBC_GET_BUFFER` and `EBC_GET_OSD_BUFFER`, `None` where the call failed or
    /// was not made. A negative offset in an answer is ignored: the main offset then
    /// stays `0` and the OSD offset falls back to `info.offset`.
    pub fn from_probe(
        fd: i32,
        map_addr: usize,
        map_len: usize,
        info: EbcBufInfo,
        fmt: i32,
        main: Option<EbcBufInfo>,
        osd: Option<EbcBufInfo>,
    ) -> (r: Ebc)
        ensures
            r.fd == fd,
            r.map_addr == map_addr,
            r.map_len == map_len,
            r.width == info.width,
            r.height == info.height,
            r.panel_color == info.panel_color,
            r.width_mm == info.width_mm,
            r.height_mm == info.height_mm,
            r.buf_format == fmt,
            r.main_offset == (match main {
                Some(gb) => if gb.offset >= 0 { gb.offset } else { 0 },
                None => 0,
            }),
            r.osd_offset == (match osd {
                Some(o) => if o.offset >= 0 { o.offset } else { info.offset },
                None => info.offset,
            }),
    {
        let mut main_offset: i32 = 0;
        if let Some(gb) = main {
            if gb.offset >= 0 {
                main_offset = gb.offset;
            }
        }
        let mut osd_offset: i32 = info.offset;
        if let Some(o) = osd {
            if o.offset >= 0 {
                osd_offset = o.offset;
            }
        }
        Ebc {
            fd,
            map_addr,
            map_len,
            width: info.width,
            height: info.height,
            panel_color: info.panel_color,
            width_mm: info.width_mm,
            height_mm: info.height_mm,
            buf_format: fmt,
            main_offset,
            osd_offset,
        }
    }

    /// Raw file descriptor.
    pub fn fd(&self) -> (r: i32)
        ensures
            r == self.fd,
    {
        self.fd
    }

    /// Mapped base address (`0` when opened for information only).
    pub fn map_base(&self) -> (r: usize)
        ensures
            r == self.map_addr,
    {
        self.map_addr
    }

    /// Length of the mapping (`0` when opened for information only).
    pub fn map_len(&self) -> (r: usize)
        ensures
            r == self.map_len,
    {
        self.map_len
    }

    /// Bits per pixel: 8 when the driver reports Y8, 4 otherwise.
    pub fn bpp(&self) -> (r: i32)
        ensures
            r == (if self.buf_format == EBC_Y8 { 8i32 } else { 4i32 }),
    {
        if self.buf_format == EBC_Y8 {
            8
        } else {
            4
        }
    }

    /// Row stride in bytes of an 8bpp buffer: the width.
    pub open spec fn spec_stride(&self) -> usize {
        self.width as usize
    }

    /// Row stride in bytes of an 8bpp buffer: the width.
    pub fn stride(&self) -> (r: usize)
        ensures
            r == self.spec_stride(),
    {
        self.width as usize
    }

    /// Size in bytes of one full 8bpp frame (stride x height).
    pub fn frame_bytes(&self) -> (r: usize)
        requires
            self.spec_stride() * (self.height as usize) <= usize::MAX,
        ensures
            r == self.spec_stride() * (self.height as usize),
    {
        self.stride() * (self.height as usize)
    }

    /// The ioctl `cmd` with no argument (e.g. `ENABLE_OVERLAY`, `SET_FB_BLANK`).
    pub fn ioctl0(&self, cmd: u32) -> (r: IoctlRequest)
        ensures
            r == (IoctlRequest { fd: self.fd, cmd, arg: IoctlArg::NoArg }),
    {
        IoctlRequest { fd: self.fd, cmd, arg: IoctlArg::NoArg }
    }

    /// The ioctl `cmd` with a pointer to `info`.
    pub fn ioctl_info(&self, cmd: u32, info: EbcBufInfo) -> (r: IoctlRequest)
        ensures
            r == (IoctlRequest { fd: self.fd, cmd, arg: IoctlArg::Info(info) }),
    {
        IoctlRequest { fd: self.fd, cmd, arg: IoctlArg::Info(info) }
    }
}

} // verus!
