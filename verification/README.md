# anyreality

Async byte streams over a blocking TLS carrier, and relays over the streams of an AnyTLS session.
The library under `src/` is verified with Verus; `app/` performs the I/O that it asks for.

- A worker thread drives the blocking TLS stream (`pump`, `carrier`). Two channels join it to an
  async stream (`async_bridge`).
- `stream_reader` reads a multiplexed stream through buffers of any size without losing bytes
  when a read is given up.
- `relay` copies between a local connection and a stream, with each direction closed on its own.
- `uot` carries UDP packets over a stream.

Each of these is a state machine: it is told what came of the last operation and says what to do
next. The contracts keep account of every byte in both directions; the proof functions whose names
begin with `law_` state what follows for the library as a whole.

Not proved, but stated where it is used: what the channels and the read buffer of `tokio` do
(`channel`, `read_buf`), and how `anytls` frames a packet and `socks5-impl` writes an address
(`uot`).
