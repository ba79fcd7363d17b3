# kisd

A daemon that speaks parts of the KIS / DebugUSB protocol of Apple Silicon
machines. It attaches the "dockchannel uart" of a device in debugusb mode to a
pseudo-terminal, so that it can be used like a serial line.

- `src/` is the protocol core, verified with Verus. It performs no I/O.
  - `le`, `order`, `wire`: integers and records as bytes.
  - `buffer`: what is relied on of the buffers of the `bytes` crate; these
    contracts are trusted, all others are proved.
  - `error`: what can go wrong.
  - `device`: finding a device, and the requests that its UART takes.
  - `base`: opening a device and guessing the base address of its UART.
  - `uart_rx`, `uart_tx`: the start of the UART's stream and its packets, and
    the cutting of written data into batches.
  - `endpoint`: endpoints, transfers and the channels on them.
  - `daemon`: the link to the terminal, and what is said when a device goes.
- `app/` is the daemon around it: USB transfers, the pseudo-terminal, arguments
  and logging.
- `tests/` runs the core on concrete values.

Operations that alternate transfers and decisions (guessing the base, starting
the stream, writing) are step functions: the daemon performs the request that a
step names and hands the reply to the next step.

The header and the memory range of a message are laid out in the byte order of
the host, which the daemon tells the core when it opens a device. Every other
integer in messages and replies is little-endian on every host.
