//! The remote-memory-access side of the benchmark: the queue-pair model, the
//! transfer engine, and the two pairs of roles that use them.

pub mod read;
pub mod transfer;
pub mod verbs;
pub mod write;

use crate::handshake::Role;
use vstd::prelude::*;

verus! {

/// The value that ends a session between a client and a server of this
/// module.
pub const DISCONNECT_SIGNAL: u32 = 0x10;

/// The fixed parameters of one benchmark run.
#[derive(Debug, Clone, Copy, PartialEq, Eq, Structural)]
pub struct Scenario {
    /// The part this endpoint plays.
    pub role: Role,
    /// Size of the buffer to allocate up front, for the role that does so.
    pub buf_size: Option<usize>,
    /// Capacity of the completion queue and credit window of the transfer.
    pub max_cqe: i32,
    /// Bytes per request, for the role that drives the transfer.
    pub batch_size: Option<usize>,
}

} // verus!
