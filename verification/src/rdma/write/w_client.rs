//! The client of a write: it offers a buffer of the length the server
//! announces and waits until the server has filled it.

use crate::connection::{check_disconnect, disconnect_verdict, DisconnectError, QpInfo};
use crate::handshake::{Role, Session, SessionState};
use crate::rdma::verbs::QpState;
use crate::rdma::DISCONNECT_SIGNAL;
use vstd::prelude::*;

verus! {

/// A write client: its handshake and the capacity of its completion queue.
/// Its buffer is registered in the course of the handshake and is the
/// session's `region` from then on.
#[derive(Debug)]
pub struct Wclient {
    pub session: Session,
    pub max_cqe: i32,
}

impl Wclient {
    /// Opens the handshake of a write client on a freshly created queue
    /// pair with number `qpn`. The sequence number is drawn at random.
    pub fn connect(qpn: u32, lid: u16, max_cqe: i32) -> (c: Wclient)
        ensures
            c.max_cqe == max_cqe,
            c.session.wf(),
            c.session@ == SessionState::initial(
                Role::WriteClient,
                QpState::Reset,
                QpInfo { qpn, psn: c.session@.local.psn, lid },
                None,
            ),
    {
        match Session::start(Role::WriteClient, qpn, lid, None) {
            Ok(session) => Wclient { session, max_cqe },
            Err(_) => vstd::pervasive::unreached(),
        }
    }

    /// Judges what the client read from the control channel at the end of
    /// the session. Only the four bytes of the disconnect signal are
    /// accepted.
    pub fn wait_for_disconnect(&self, data: &[u8]) -> (r: Result<(), DisconnectError>)
        ensures
            r == disconnect_verdict(data@, DISCONNECT_SIGNAL),
    {
        check_disconnect(data, DISCONNECT_SIGNAL)
    }
}

} // verus!
