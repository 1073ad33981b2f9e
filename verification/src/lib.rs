//! Verified core of a benchmark for bulk data movement over a reliable,
//! connection-oriented remote-memory-access transport.
//!
//! The crate holds what can be reasoned about without a device: the wire format
//! of the control channel, the handshake that two endpoints run over it, the
//! queue-pair state machine that the handshake parameterizes, and the
//! credit-bounded engine that schedules one-sided reads and writes. Everything
//! that touches a socket, a file or an adapter is left to the caller, which
//! performs the actions these state machines ask for and reports what happened.

pub mod wire;
pub mod rdma;
pub mod serial;
pub mod connection;
pub mod handshake;
