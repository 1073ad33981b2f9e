//! One-sided reads: the client pulls the server's buffer.

pub mod r_client;
pub mod r_server;

use crate::handshake::Role;
use crate::rdma::Scenario;
use vstd::prelude::*;

verus! {

/// The read server's run: it offers its buffer behind a completion queue of
/// 1024 entries and waits for the disconnect signal.
pub fn test_rserver() -> (s: Scenario)
    ensures
        s == (Scenario {
            role: Role::ReadServer,
            buf_size: None,
            max_cqe: 1024,
            batch_size: None,
        }),
{
    Scenario { role: Role::ReadServer, buf_size: None, max_cqe: 1024, batch_size: None }
}

/// The read client's run: a buffer of 1,073,733,000 bytes, read in one
/// request of that size, with a credit window of 2048.
pub fn test_rclient() -> (s: Scenario)
    ensures
        s == (Scenario {
            role: Role::ReadClient,
            buf_size: Some(1073733000usize),
            max_cqe: 2048,
            batch_size: Some(1073733000usize),
        }),
{
    Scenario {
        role: Role::ReadClient,
        buf_size: Some(1073733000),
        max_cqe: 2048,
        batch_size: Some(1073733000),
    }
}

} // verus!
