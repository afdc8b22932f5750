//! Async byte streams over a blocking TLS carrier, and the relaying of connections and UDP
//! packets over the streams of a session.
//!
//! The library decides; the I/O around it is for the caller. Where a loop alternates between the
//! two, a type of this crate takes the result of the last operation and says what to do next.
//!
//! - `async_bridge`: the async side of a carrier, with the channels to its worker.
//! - `pump`: the worker's loop between the TLS stream and the channels.
//! - `carrier`: the worker's life, from setting up the socket to taking the connection down.
//! - `stream_reader`: reading a stream through buffers of any size.
//! - `relay`: copying between a local connection and a stream.
//! - `uot`: carrying UDP packets over a stream.
//! - `channel`, `read_buf`: what is taken for granted of the tokio crate.

pub mod async_bridge;
pub mod bytes;
pub mod carrier;
pub mod channel;
pub mod error;
pub mod pump;
pub mod read_buf;
pub mod relay;
pub mod stream_reader;
pub mod uot;

pub use stream_reader::AnytlsStreamReader;
