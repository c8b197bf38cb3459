//! Refresh-tuning requests: full-mode cadence, diff percent, new-buffer wait time.
//! They act on the kernel's auto-refresh loop and are global to the device.

use crate::ebc::Ebc;
use crate::ioctl::{
    IoctlArg, IoctlRequest, EBC_SET_DIFF_PERCENT, EBC_SET_FULL_MODE_NUM, EBC_WAIT_NEW_BUF_TIME,
};
use vstd::prelude::*;

verus! {

impl Ebc {
    /// `EBC_SET_FULL_MODE_NUM`: after `n` partial refreshes force one full GC16
    /// (`n = 0` disables).
    pub fn set_full_mode_num(&self, n: i32) -> (r: IoctlRequest)
        ensures
            r == (IoctlRequest { fd: self.fd, cmd: EBC_SET_FULL_MODE_NUM, arg: IoctlArg::Int(n) }),
    {
        IoctlRequest { fd: self.fd(), cmd: EBC_SET_FULL_MODE_NUM, arg: IoctlArg::Int(n) }
    }

    /// `EBC_SET_DIFF_PERCENT`: a frame differing from the last on more than `pct`% of
    /// pixels is refreshed in full.
    pub fn set_diff_percent(&self, pct: i32) -> (r: IoctlRequest)
        ensures
            r == (IoctlRequest { fd: self.fd, cmd: EBC_SET_DIFF_PERCENT, arg: IoctlArg::Int(pct) }),
    {
        IoctlRequest { fd: self.fd(), cmd: EBC_SET_DIFF_PERCENT, arg: IoctlArg::Int(pct) }
    }

    /// `EBC_WAIT_NEW_BUF_TIME`: milliseconds the auto-refresh loop waits for a new
    /// buffer before refreshing with the current one.
    pub fn set_wait_new_buf_time(&self, ms: i32) -> (r: IoctlRequest)
        ensures
            r == (IoctlRequest { fd: self.fd, cmd: EBC_WAIT_NEW_BUF_TIME, arg: IoctlArg::Int(ms) }),
    {
        IoctlRequest { fd: self.fd(), cmd: EBC_WAIT_NEW_BUF_TIME, arg: IoctlArg::Int(ms) }
    }
}

} // verus!
