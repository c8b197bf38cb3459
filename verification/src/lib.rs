//! hweink: e-ink drawing for the Hanwang N10 Pro III (Rockchip RK3576, `/dev/ebc`).
//!
//! Callers draw in portrait screen coordinates (1860 x 2480, what the user sees); the
//! library rotates them 90 degrees clockwise into the native landscape buffer
//! (2480 x 1860), packs 8bpp Y8 gray, chooses refresh waveforms, turns pen events
//! into screen coordinates, and says which ioctl requests and property writes carry
//! all this to the device.
//!
//! - [`geom`]: the screen/buffer rotation and rectangles.
//! - [`ioctl`]: request codes, the `ebc_buf_info` record, ioctl requests.
//! - [`mode`]: refresh waveforms and their decimal and symbolic names.
//! - [`ebc`]: what opening the device found out.
//! - [`path`]: the OSD and main paths and the surface drawing on one.
//! - [`draw`]: batch-write scopes over a shadow canvas, flushed in one refresh.
//! - [`refresh`]: refresh-tuning requests.
//! - [`pen`]: pen event decoding and state.
//! - [`note`]: what the pen note program does with each pen event and key.
//! - [`sysprop`]: system-property writes for the main path.

pub mod draw;
pub mod ebc;
pub mod geom;
pub mod ioctl;
pub mod mode;
pub mod note;
pub mod path;
pub mod pen;
pub mod refresh;
pub mod sysprop;

pub use draw::Draw;
pub use ebc::Ebc;
pub use geom::ScreenRect;
pub use mode::Mode;
pub use path::{Path, Surface};
