//! Transport and tick-loop core of a real-time multiplayer server.
//!
//! The crate holds the decisions of the server and none of its sockets: the
//! connection registries of the datagram and the framed-stream transport, the
//! fixed-rate tick scheduler and the lifecycle of the game loop. The caller
//! performs the non-blocking I/O and reports what came of it.

pub mod net;
pub mod server;
pub mod timer;
