//! The client of a read: it learns where the server's buffer is and pulls it
//! into its own.

use crate::connection::{disconnect_bytes, disconnect_frame, QpInfo, DISCONNECT_LEN};
use crate::handshake::{lemma_done, ActionView, HandshakeError, Role, Session, SessionState};
use crate::rdma::transfer::{
    chunk_count, lemma_completed_run, plan_of, Transfer, TransferAction, TransferError,
    TransferEvent, TransferState,
};
use crate::rdma::verbs::{IbvMr, QpState, WrOpcode};
use crate::rdma::DISCONNECT_SIGNAL;
use vstd::prelude::*;

verus! {

/// A read client: its handshake, the buffer it reads into, and its credit
/// window.
#[derive(Debug)]
pub struct Rclient {
    pub session: Session,
    pub mr: IbvMr,
    pub max_cqe: i32,
}

/// How the read of a client in state `s` starts: refused until the
/// handshake is done, and then as the transfer of the whole remote buffer
/// into `mr` starts.
pub open spec fn read_start(s: SessionState, mr: IbvMr, max_cqe: i32, batch_size: usize) -> Result<
    TransferState,
    TransferError,
> {
    if s.outcome() != Ok::<ActionView, HandshakeError>(ActionView::Done) {
        Err(TransferError::NotConnected)
    } else {
        match s.remote {
            None => Err(TransferError::NotConnected),
            Some(m) => TransferState::start(
                s.qp,
                plan_of(WrOpcode::RdmaRead, mr, m, m.len, batch_size, max_cqe),
            ),
        }
    }
}

/// A connected client reads the whole remote buffer, whatever the window:
/// for every chunk size above zero and every remote buffer that fits the
/// local one, the read starts; a run of it that comes to its end has
/// submitted the quotient of length and chunk size, rounded up, requests;
/// and each of them is a read of its chunk, described by `lemma_request`.
pub proof fn lemma_read_covers_the_buffer(
    s: SessionState,
    mr: IbvMr,
    max_cqe: i32,
    batch_size: usize,
    evs: Seq<TransferEvent>,
)
    requires
        s.wf(),
        s.outcome() == Ok::<ActionView, HandshakeError>(ActionView::Done),
        s.remote is Some,
        batch_size > 0,
        s.remote->0.len <= mr.len,
    ensures
        ({
            let m = s.remote->0;
            let plan = plan_of(WrOpcode::RdmaRead, mr, m, m.len, batch_size, max_cqe);
            let end = TransferState::initial(plan).after(evs);
            &&& read_start(s, mr, max_cqe, batch_size) == Ok::<TransferState, TransferError>(
                TransferState::initial(plan),
            )
            &&& plan.opcode == WrOpcode::RdmaRead && plan.total == m.len && plan.chunk
                == batch_size
            &&& end.outcome() == Ok::<TransferAction, TransferError>(TransferAction::Done)
                ==> end.posted == chunk_count(m.len as nat, batch_size as nat) && end.in_flight
                == 0
        }),
{
    lemma_done(s);
    let m = s.remote->0;
    let plan = plan_of(WrOpcode::RdmaRead, mr, m, m.len, batch_size, max_cqe);
    let end = TransferState::initial(plan).after(evs);
    if end.outcome() == Ok::<TransferAction, TransferError>(TransferAction::Done) {
        lemma_completed_run(plan, evs);
    }
}

impl Rclient {
    /// Opens the handshake of a read client on a freshly created queue pair
    /// with number `qpn`, with the receive buffer `mr` and a credit window
    /// of `max_cqe`. The sequence number is drawn at random.
    pub fn connect(qpn: u32, lid: u16, mr: IbvMr, max_cqe: i32) -> (c: Rclient)
        ensures
            c.mr == mr,
            c.max_cqe == max_cqe,
            c.session.wf(),
            c.session@ == SessionState::initial(
                Role::ReadClient,
                QpState::Reset,
                QpInfo { qpn, psn: c.session@.local.psn, lid },
                None,
            ),
    {
        match Session::start(Role::ReadClient, qpn, lid, None) {
            Ok(session) => Rclient { session, mr, max_cqe },
            Err(_) => vstd::pervasive::unreached(),
        }
    }

    /// Plans the read of the whole remote buffer in requests of
    /// `batch_size` bytes.
    pub fn read_data(&self, batch_size: usize) -> (r: Result<Transfer, TransferError>)
        requires
            self.session.wf(),
        ensures
            match r {
                Ok(t) => Ok::<TransferState, TransferError>(t@) == read_start(
                    self.session@,
                    self.mr,
                    self.max_cqe,
                    batch_size,
                ) && t@.wf(),
                Err(e) => Err::<TransferState, TransferError>(e) == read_start(
                    self.session@,
                    self.mr,
                    self.max_cqe,
                    batch_size,
                ),
            },
    {
        if !self.session.is_done() {
            return Err(TransferError::NotConnected);
        }
        match self.session.remote() {
            None => Err(TransferError::NotConnected),
            Some(m) => {
                let qp = self.session.qp();
                Transfer::new(WrOpcode::RdmaRead, &qp, self.mr, m, m.len, batch_size, self.max_cqe)
            },
        }
    }

    /// What the client writes on the control channel once its read has
    /// drained: the disconnect signal.
    pub fn disconnect(&self) -> (out: Vec<u8>)
        ensures
            out@ == disconnect_bytes(DISCONNECT_SIGNAL),
            out@.len() == DISCONNECT_LEN,
    {
        disconnect_frame(DISCONNECT_SIGNAL)
    }
}

} // verus!
