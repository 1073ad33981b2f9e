//! One-sided writes: the server pushes its buffer into the client's.

pub mod w_client;
pub mod w_server;

use crate::handshake::Role;
use crate::rdma::Scenario;
use vstd::prelude::*;

verus! {

/// The write server's run: it writes its buffer in requests of one mebibyte,
/// with a credit window of 1024.
pub fn test_wserver() -> (s: Scenario)
    ensures
        s == (Scenario {
            role: Role::WriteServer,
            buf_size: None,
            max_cqe: 1024,
            batch_size: Some(1048576usize),
        }),
{
    Scenario {
        role: Role::WriteServer,
        buf_size: None,
        max_cqe: 1024,
        batch_size: Some(1024 * 1024),
    }
}

/// The write client's run: it offers a buffer of the length the server
/// announces, behind a completion queue of 1024 entries, and waits for the
/// disconnect signal.
pub fn test_wclient() -> (s: Scenario)
    ensures
        s == (Scenario {
            role: Role::WriteClient,
            buf_size: None,
            max_cqe: 1024,
            batch_size: None,
        }),
{
    Scenario { role: Role::WriteClient, buf_size: None, max_cqe: 1024, batch_size: None }
}

} // verus!
