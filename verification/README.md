# hweink

E-ink drawing for the Hanwang N10 Pro III (Rockchip RK3576, `/dev/ebc`), with its
logic verified by Verus.

- `src/` — the verified library: the 90-degree clockwise screen/buffer rotation,
  refresh waveforms and their names, the `ebc_buf_info` record and the ioctl
  requests that drive the OSD and main paths, surfaces and batch draw scopes over a
  shadow canvas, pen event decoding and state, the note program's step from pen
  event and key to what it draws, and system-property writes. Each
  function states its result in its contract; the library's laws (rotation
  round trip, waveform text round trip, dirty-region coverage and order, what a flush leaves
  in the panel buffer, pen points lining up with drawn pixels) are proof functions.
- `app/` — the device side and the demo: opening and mapping `/dev/ebc`, carrying
  out the ioctl requests and property writes, reading the pen device, and the
  `hweink-demo` subcommands (including the `note` app).
- `tests/` — tests of the library on concrete values.
