//! The server of a read: it offers its buffer and waits until the client is
//! done with it.

use crate::connection::{
    check_disconnect, disconnect_verdict, DisconnectError, MemInfo, QpInfo,
};
use crate::handshake::{Role, Session, SessionState};
use crate::rdma::verbs::{IbvMr, QpState};
use crate::rdma::DISCONNECT_SIGNAL;
use vstd::prelude::*;

verus! {

/// A read server: its handshake, the buffer it offers, and the capacity of
/// its completion queue.
#[derive(Debug)]
pub struct Rserver {
    pub session: Session,
    pub mr: IbvMr,
    pub max_cqe: i32,
}

impl Rserver {
    /// Opens the handshake of a read server on a freshly created queue pair
    /// with number `qpn`, offering the buffer `mr`. The sequence number is
    /// drawn at random.
    pub fn new(qpn: u32, lid: u16, mr: IbvMr, max_cqe: i32) -> (c: Rserver)
        ensures
            c.mr == mr,
            c.max_cqe == max_cqe,
            c.session.wf(),
            c.session@ == SessionState::initial(
                Role::ReadServer,
                QpState::Reset,
                QpInfo { qpn, psn: c.session@.local.psn, lid },
                Some(MemInfo { addr: mr.addr, len: mr.len, rkey: mr.rkey }),
            ),
    {
        let region = MemInfo::new(mr.addr, mr.len, mr.rkey());
        match Session::start(Role::ReadServer, qpn, lid, Some(region)) {
            Ok(session) => Rserver { session, mr, max_cqe },
            Err(_) => vstd::pervasive::unreached(),
        }
    }

    /// Judges what the server read from the control channel at the end of
    /// the session. Only the four bytes of the disconnect signal are
    /// accepted.
    pub fn wait_for_disconnect(&self, data: &[u8]) -> (r: Result<(), DisconnectError>)
        ensures
            r == disconnect_verdict(data@, DISCONNECT_SIGNAL),
    {
        check_disconnect(data, DISCONNECT_SIGNAL)
    }
}

} // verus!
