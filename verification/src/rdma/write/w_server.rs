//! The server of a write: it announces the length of its buffer, learns
//! where the client's buffer is, and pushes its own into it.

use crate::connection::{disconnect_bytes, disconnect_frame, MemInfo, QpInfo, DISCONNECT_LEN};
use crate::handshake::{lemma_done, ActionView, HandshakeError, Role, Session, SessionState};
use crate::rdma::transfer::{
    chunk_count, lemma_completed_run, plan_of, Transfer, TransferAction, TransferError,
    TransferEvent, TransferPlan, TransferState,
};
use crate::rdma::verbs::{IbvMr, QpState, WrOpcode};
use crate::rdma::DISCONNECT_SIGNAL;
use vstd::prelude::*;

verus! {

/// A write server: its handshake, the buffer it writes from, and its credit
/// window.
#[derive(Debug)]
pub struct Wserver {
    pub session: Session,
    pub mr: IbvMr,
    pub max_cqe: i32,
}

/// The plan of a write from `mr` to the buffer the client announced at
/// `remote`. The client's buffer has the length it was told, which is the
/// length of `mr`.
pub open spec fn write_plan(mr: IbvMr, remote: MemInfo, max_cqe: i32, batch_size: usize) -> TransferPlan {
    plan_of(
        WrOpcode::RdmaWrite,
        mr,
        MemInfo { addr: remote.addr, len: mr.len, rkey: remote.rkey },
        mr.len,
        batch_size,
        max_cqe,
    )
}

/// How the write of a server in state `s` starts: refused until the
/// handshake is done, and then as the transfer of the whole of `mr` into the
/// remote buffer starts.
pub open spec fn write_start(s: SessionState, mr: IbvMr, max_cqe: i32, batch_size: usize) -> Result<
    TransferState,
    TransferError,
> {
    if s.outcome() != Ok::<ActionView, HandshakeError>(ActionView::Done) {
        Err(TransferError::NotConnected)
    } else {
        match s.remote {
            None => Err(TransferError::NotConnected),
            Some(m) => TransferState::start(s.qp, write_plan(mr, m, max_cqe, batch_size)),
        }
    }
}

/// A connected server writes its whole buffer, whatever the window: for
/// every chunk size above zero the write starts; a run of it that comes to
/// its end has submitted the quotient of length and chunk size, rounded up,
/// requests; and each of them is a write of its chunk to the address and
/// under the key the client announced, described by `lemma_request`.
pub proof fn lemma_write_covers_the_buffer(
    s: SessionState,
    mr: IbvMr,
    max_cqe: i32,
    batch_size: usize,
    evs: Seq<TransferEvent>,
)
    requires
        s.wf(),
        s.outcome() == Ok::<ActionView, HandshakeError>(ActionView::Done),
        s.remote is Some,
        batch_size > 0,
    ensures
        ({
            let plan = write_plan(mr, s.remote->0, max_cqe, batch_size);
            let end = TransferState::initial(plan).after(evs);
            &&& write_start(s, mr, max_cqe, batch_size) == Ok::<TransferState, TransferError>(
                TransferState::initial(plan),
            )
            &&& plan.opcode == WrOpcode::RdmaWrite && plan.total == mr.len && plan.chunk
                == batch_size
            &&& plan.remote.addr == s.remote->0.addr && plan.remote.rkey == s.remote->0.rkey
            &&& end.outcome() == Ok::<TransferAction, TransferError>(TransferAction::Done)
                ==> end.posted == chunk_count(mr.len as nat, batch_size as nat) && end.in_flight
                == 0
        }),
{
    lemma_done(s);
    let plan = write_plan(mr, s.remote->0, max_cqe, batch_size);
    let end = TransferState::initial(plan).after(evs);
    if end.outcome() == Ok::<TransferAction, TransferError>(TransferAction::Done) {
        lemma_completed_run(plan, evs);
    }
}

impl Wserver {
    /// Opens the handshake of a write server on a freshly created queue
    /// pair with number `qpn`, with the buffer `mr` to write from and a
    /// credit window of `max_cqe`. The sequence number is drawn at random.
    pub fn new(qpn: u32, lid: u16, mr: IbvMr, max_cqe: i32) -> (c: Wserver)
        ensures
            c.mr == mr,
            c.max_cqe == max_cqe,
            c.session.wf(),
            c.session@ == SessionState::initial(
                Role::WriteServer,
                QpState::Reset,
                QpInfo { qpn, psn: c.session@.local.psn, lid },
                Some(MemInfo { addr: mr.addr, len: mr.len, rkey: mr.rkey }),
            ),
    {
        let region = MemInfo::new(mr.addr, mr.len, mr.rkey());
        match Session::start(Role::WriteServer, qpn, lid, Some(region)) {
            Ok(session) => Wserver { session, mr, max_cqe },
            Err(_) => vstd::pervasive::unreached(),
        }
    }

    /// Plans the write of the whole local buffer in requests of
    /// `batch_size` bytes.
    pub fn write_data(&self, batch_size: usize) -> (r: Result<Transfer, TransferError>)
        requires
            self.session.wf(),
        ensures
            match r {
                Ok(t) => Ok::<TransferState, TransferError>(t@) == write_start(
                    self.session@,
                    self.mr,
                    self.max_cqe,
                    batch_size,
                ) && t@.wf(),
                Err(e) => Err::<TransferState, TransferError>(e) == write_start(
                    self.session@,
                    self.mr,
                    self.max_cqe,
                    batch_size,
                ),
            },
    {
        if !self.session.is_done() {
            return Err(TransferError::NotConnected);
        }
        match self.session.remote() {
            None => Err(TransferError::NotConnected),
            Some(m) => {
                let qp = self.session.qp();
                let remote = MemInfo::new(m.addr, self.mr.len, m.rkey);
                Transfer::new(
                    WrOpcode::RdmaWrite,
                    &qp,
                    self.mr,
                    remote,
                    self.mr.len,
                    batch_size,
                    self.max_cqe,
                )
            },
        }
    }

    /// What the server writes on the control channel once its write has
    /// drained: the disconnect signal.
    pub fn disconnect(&self) -> (out: Vec<u8>)
        ensures
            out@ == disconnect_bytes(DISCONNECT_SIGNAL),
            out@.len() == DISCONNECT_LEN,
    {
        disconnect_frame(DISCONNECT_SIGNAL)
    }
}

} // verus!
