# iroh-live

Live audio and video over [iroh](https://iroh.computer): publish a broadcast,
hand out its ticket, and watch, call, meet or record from anywhere the ticket
reaches.

The rules of the toolkit are a Verus library. What every function returns is
stated in its contract and proved; what holds across functions is stated in
public proof functions beside them.

## Layout

- `src/` is the library.
  - Tickets and identities: `ticket`, `endpoint`, `encoding`, `util`.
  - Flags and grammars: `args`, `backend`, `source_spec`, `rendition`, `source`,
    `features`.
  - Commands: `devices`, `record`, `run`, `transport`, `call`, `live`.
  - Windows: `ui`, `scan`, `watch`, `call_window`, `room`, `qr`.
  - The relay: `relay`, `pull`.
  - The Raspberry Pi Zero: `pi_zero`, `panel`, `gles`.
  - Shared ground: `text`, `time`.
- `tests/` runs the library on concrete values.
- `app/` is the `irl` program: arguments, devices, files, sockets and windows. It
  asks the library what to do and does it.

Time reaches the library as plain nanoseconds, and the network as plain values
and events. Where another crate does the work (base64, QR codes, keys), the
library calls it through a small function whose contract says what is relied on.
