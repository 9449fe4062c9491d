//! A verified core for a flow-controlled firmware streaming session.
//!
//! A pen plotter executes a precomputed binary instruction stream. This
//! library holds the session logic that pushes such a stream to the
//! plotter's firmware over a duplex byte link: the wire framing, the
//! mutex-guarded session state shared with pause/stop commands, and the
//! flow-controlled send/acknowledge loop. The embedder owns the actual
//! sockets and tasks; it hands this library plain values (handshake reply
//! bytes, acknowledgement counts, user commands) and performs the writes
//! that the library's decisions call for.

pub mod config;
pub mod errors;
pub mod frames;
pub mod laws;
pub mod session;
pub mod stream;
