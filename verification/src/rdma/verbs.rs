//! Plain-value models of the verbs objects that the protocol logic reads: the
//! queue pair with its state machine, the registered memory region, work
//! requests and work completions.
//!
//! Nothing here touches a device. A transition or a work request is computed
//! as a value; the caller hands it to the adapter and reports the outcome.

use vstd::prelude::*;

verus! {

/// The states a queue pair passes through, in this order, plus the state of a
/// pair on which a transition failed.
#[derive(Debug, Clone, Copy, PartialEq, Eq, Structural)]
pub enum QpState {
    Reset,
    Init,
    ReadyToReceive,
    ReadyToSend,
    /// A transition was rejected or failed on the device. The pair can only
    /// be destroyed.
    Error,
}

/// Access permissions granted on a queue pair or a memory region.
#[derive(Debug, Clone, Copy, PartialEq, Eq, Structural)]
pub struct AccessFlags {
    pub local_write: bool,
    pub remote_read: bool,
    pub remote_write: bool,
}

/// Path MTU classes.
#[derive(Debug, Clone, Copy, PartialEq, Eq, Structural)]
pub enum Mtu {
    Mtu256,
    Mtu512,
    Mtu1024,
    Mtu2048,
    Mtu4096,
}

/// How to address the peer's port.
#[derive(Debug, Clone, Copy, PartialEq, Eq, Structural)]
pub struct AhAttr {
    pub is_global: bool,
    pub dlid: u16,
    pub sl: u8,
    pub src_path_bits: u8,
    pub port_num: u8,
}

/// One transition of the queue-pair state machine together with the
/// attributes that the device is given for it.
#[derive(Debug, Clone, Copy, PartialEq, Eq, Structural)]
pub enum QpTransition {
    /// RESET to INIT.
    ToInit { pkey_index: u16, port_num: u8, access: AccessFlags },
    /// INIT to READY-TO-RECEIVE.
    ToReadyToReceive {
        path_mtu: Mtu,
        dest_qp_num: u32,
        rq_psn: u32,
        max_dest_rd_atomic: u8,
        min_rnr_timer: u8,
        ah_attr: AhAttr,
    },
    /// READY-TO-RECEIVE to READY-TO-SEND.
    ToReadyToSend { timeout: u8, retry_cnt: u8, rnr_retry: u8, sq_psn: u32, max_rd_atomic: u8 },
}

/// Why a transition was refused.
#[derive(Debug, Clone, Copy, PartialEq, Eq, Structural)]
pub enum QpError {
    /// The pair was in `from`, which is not the state the transition starts in.
    OutOfOrder { from: QpState },
}

/// The state that follows `s` in the fixed sequence, if there is one.
pub open spec fn successor(s: QpState) -> Option<QpState> {
    match s {
        QpState::Reset => Some(QpState::Init),
        QpState::Init => Some(QpState::ReadyToReceive),
        QpState::ReadyToReceive => Some(QpState::ReadyToSend),
        QpState::ReadyToSend => None,
        QpState::Error => None,
    }
}

/// Position of a state in the fixed sequence; the error state has none and
/// is placed after all others.
pub open spec fn rank(s: QpState) -> nat {
    match s {
        QpState::Reset => 0,
        QpState::Init => 1,
        QpState::ReadyToReceive => 2,
        QpState::ReadyToSend => 3,
        QpState::Error => 4,
    }
}

/// The state a transition starts in.
pub open spec fn source(t: QpTransition) -> QpState {
    match t {
        QpTransition::ToInit { .. } => QpState::Reset,
        QpTransition::ToReadyToReceive { .. } => QpState::Init,
        QpTransition::ToReadyToSend { .. } => QpState::ReadyToReceive,
    }
}

/// The state a transition ends in.
pub open spec fn target(t: QpTransition) -> QpState {
    match t {
        QpTransition::ToInit { .. } => QpState::Init,
        QpTransition::ToReadyToReceive { .. } => QpState::ReadyToReceive,
        QpTransition::ToReadyToSend { .. } => QpState::ReadyToSend,
    }
}

/// The attributes of RESET to INIT on port `port_num`: partition 0 and
/// local-write, remote-read and remote-write access.
pub open spec fn reset2init(port_num: u8) -> QpTransition {
    QpTransition::ToInit {
        pkey_index: 0,
        port_num,
        access: AccessFlags { local_write: true, remote_read: true, remote_write: true },
    }
}

/// The attributes of INIT to READY-TO-RECEIVE toward the peer's queue pair:
/// a 1024-byte path MTU, one outstanding read as responder, and a minimum
/// receiver-not-ready timer of 12.
pub open spec fn init2rtr(
    sl: u8,
    port_num: u8,
    remote_qpn: u32,
    remote_psn: u32,
    remote_lid: u16,
) -> QpTransition {
    QpTransition::ToReadyToReceive {
        path_mtu: Mtu::Mtu1024,
        dest_qp_num: remote_qpn,
        rq_psn: remote_psn,
        max_dest_rd_atomic: 1,
        min_rnr_timer: 12,
        ah_attr: AhAttr { is_global: false, dlid: remote_lid, sl, src_path_bits: 0, port_num },
    }
}

/// The attributes of READY-TO-RECEIVE to READY-TO-SEND with the local
/// sequence number: ack timeout 14, seven retries of either kind, and one
/// outstanding read as requester.
pub open spec fn rtr2rts(psn: u32) -> QpTransition {
    QpTransition::ToReadyToSend {
        timeout: 14,
        retry_cnt: 7,
        rnr_retry: 7,
        sq_psn: psn,
        max_rd_atomic: 1,
    }
}

/// What an attempt to apply `t` in state `s` leads to: the target when `s` is
/// where `t` starts, the error state otherwise.
pub open spec fn after_attempt(s: QpState, t: QpTransition) -> QpState {
    if s == source(t) {
        target(t)
    } else {
        QpState::Error
    }
}

/// A transition is accepted exactly when it leads from a state to its
/// successor: no state is skipped, none is entered twice, and nothing leaves
/// the error state.
pub proof fn lemma_transitions_follow_sequence(s: QpState, t: QpTransition)
    ensures
        s == source(t) <==> successor(s) == Some(target(t)),
        s == source(t) ==> rank(after_attempt(s, t)) == rank(s) + 1,
        s != source(t) ==> after_attempt(s, t) == QpState::Error,
        rank(after_attempt(s, t)) >= rank(s),
{
}

/// The model of a queue pair: its number and the state it has reached.
#[derive(Debug, Clone, Copy, PartialEq, Eq, Structural)]
pub struct IbvQp {
    qp_num: u32,
    state: QpState,
}

impl IbvQp {
    /// The queue-pair number that identifies the pair to its peer.
    pub closed spec fn qpn(self) -> u32 {
        self.qp_num
    }

    /// The state the pair has reached.
    pub closed spec fn state(self) -> QpState {
        self.state
    }

    /// A freshly created pair with number `qp_num`, in RESET.
    pub fn new(qp_num: u32) -> (qp: IbvQp)
        ensures
            qp.qpn() == qp_num,
            qp.state() == QpState::Reset,
    {
        IbvQp { qp_num, state: QpState::Reset }
    }

    /// The queue-pair number.
    pub fn get_qpn(&self) -> (n: u32)
        ensures
            n == self.qpn(),
    {
        self.qp_num
    }

    /// The current state.
    pub fn get_state(&self) -> (s: QpState)
        ensures
            s == self.state(),
    {
        self.state
    }

    /// Whether work requests may be posted: only in READY-TO-SEND.
    pub fn can_post(&self) -> (b: bool)
        ensures
            b == (self.state() == QpState::ReadyToSend),
    {
        match self.state {
            QpState::ReadyToSend => true,
            _ => false,
        }
    }

    /// Attempts transition `t`: accepted from the state `t` starts in, and
    /// refused, with the pair put in the error state, from any other.
    pub fn modify(&mut self, t: QpTransition) -> (r: Result<QpTransition, QpError>)
        ensures
            final(self).qpn() == old(self).qpn(),
            final(self).state() == after_attempt(old(self).state(), t),
            old(self).state() == source(t) ==> r == Ok::<QpTransition, QpError>(t),
            old(self).state() != source(t) ==> r == Err::<QpTransition, QpError>(
                QpError::OutOfOrder { from: old(self).state() },
            ),
    {
        let from = self.state;
        let (expected, next) = match t {
            QpTransition::ToInit { .. } => (QpState::Reset, QpState::Init),
            QpTransition::ToReadyToReceive { .. } => (QpState::Init, QpState::ReadyToReceive),
            QpTransition::ToReadyToSend { .. } => (QpState::ReadyToReceive, QpState::ReadyToSend),
        };
        if from == expected {
            self.state = next;
            Ok(t)
        } else {
            self.state = QpState::Error;
            Err(QpError::OutOfOrder { from })
        }
    }

    /// RESET to INIT on local port `port_num`. Accepted only in RESET; the
    /// result is the transition to hand to the device.
    pub fn modify_reset2init(&mut self, port_num: u8) -> (r: Result<QpTransition, QpError>)
        ensures
            final(self).qpn() == old(self).qpn(),
            final(self).state() == after_attempt(old(self).state(), reset2init(port_num)),
            old(self).state() == QpState::Reset ==> r == Ok::<QpTransition, QpError>(
                reset2init(port_num),
            ),
            old(self).state() != QpState::Reset ==> r == Err::<QpTransition, QpError>(
                QpError::OutOfOrder { from: old(self).state() },
            ),
    {
        self.modify(
            QpTransition::ToInit {
                pkey_index: 0,
                port_num,
                access: AccessFlags { local_write: true, remote_read: true, remote_write: true },
            },
        )
    }

    /// INIT to READY-TO-RECEIVE toward the peer's queue pair. Accepted only in
    /// INIT.
    pub fn modify_init2rtr(
        &mut self,
        sl: u8,
        port_num: u8,
        remote_qpn: u32,
        remote_psn: u32,
        remote_lid: u16,
    ) -> (r: Result<QpTransition, QpError>)
        ensures
            final(self).qpn() == old(self).qpn(),
            final(self).state() == after_attempt(
                old(self).state(),
                init2rtr(sl, port_num, remote_qpn, remote_psn, remote_lid),
            ),
            old(self).state() == QpState::Init ==> r == Ok::<QpTransition, QpError>(
                init2rtr(sl, port_num, remote_qpn, remote_psn, remote_lid),
            ),
            old(self).state() != QpState::Init ==> r == Err::<QpTransition, QpError>(
                QpError::OutOfOrder { from: old(self).state() },
            ),
    {
        self.modify(
            QpTransition::ToReadyToReceive {
                path_mtu: Mtu::Mtu1024,
                dest_qp_num: remote_qpn,
                rq_psn: remote_psn,
                max_dest_rd_atomic: 1,
                min_rnr_timer: 12,
                ah_attr: AhAttr {
                    is_global: false,
                    dlid: remote_lid,
                    sl,
                    src_path_bits: 0,
                    port_num,
                },
            },
        )
    }

    /// READY-TO-RECEIVE to READY-TO-SEND with the local sequence number
    /// `psn`. Accepted only in READY-TO-RECEIVE.
    pub fn modify_rtr2rts(&mut self, psn: u32) -> (r: Result<QpTransition, QpError>)
        ensures
            final(self).qpn() == old(self).qpn(),
            final(self).state() == after_attempt(old(self).state(), rtr2rts(psn)),
            old(self).state() == QpState::ReadyToReceive ==> r == Ok::<QpTransition, QpError>(
                rtr2rts(psn),
            ),
            old(self).state() != QpState::ReadyToReceive ==> r == Err::<QpTransition, QpError>(
                QpError::OutOfOrder { from: old(self).state() },
            ),
    {
        self.modify(
            QpTransition::ToReadyToSend {
                timeout: 14,
                retry_cnt: 7,
                rnr_retry: 7,
                sq_psn: psn,
                max_rd_atomic: 1,
            },
        )
    }

    /// Records that the device refused a transition: the pair is unusable
    /// from now on.
    pub fn fail(&mut self)
        ensures
            final(self).qpn() == old(self).qpn(),
            final(self).state() == QpState::Error,
    {
        self.state = QpState::Error;
    }
}

/// The model of a registered memory region: where the buffer lies, how long
/// it is, and the two keys that registration produced.
#[derive(Debug, Clone, Copy, PartialEq, Eq, Structural)]
pub struct IbvMr {
    pub addr: u64,
    pub len: usize,
    pub lkey: u32,
    pub rkey: u32,
}

impl IbvMr {
    /// Describes a region of `len` bytes at `addr` registered under `lkey`
    /// and `rkey`.
    pub fn new(addr: u64, len: usize, lkey: u32, rkey: u32) -> (mr: IbvMr)
        ensures
            mr == (IbvMr { addr, len, lkey, rkey }),
    {
        IbvMr { addr, len, lkey, rkey }
    }

    /// The key that the peer needs to reach this region.
    pub fn rkey(&self) -> (k: u32)
        ensures
            k == self.rkey,
    {
        self.rkey
    }

    /// The key that the local queue pair uses for this region.
    pub fn lkey(&self) -> (k: u32)
        ensures
            k == self.lkey,
    {
        self.lkey
    }
}

/// The kinds of work request.
#[derive(Debug, Clone, Copy, PartialEq, Eq, Structural)]
pub enum WrOpcode {
    Send,
    Recv,
    RdmaRead,
    RdmaWrite,
}

/// One scatter-gather element: a span of a registered local buffer. The
/// length is that of the span; the device's field for it has 32 bits.
#[derive(Debug, Clone, Copy, PartialEq, Eq, Structural)]
pub struct Sge {
    pub addr: u64,
    pub length: usize,
    pub lkey: u32,
}

/// The remote side of a one-sided operation.
#[derive(Debug, Clone, Copy, PartialEq, Eq, Structural)]
pub struct RemoteTarget {
    pub addr: u64,
    pub rkey: u32,
}

/// A work request with a single scatter-gather element.
#[derive(Debug, Clone, Copy, PartialEq, Eq)]
pub struct WorkRequest {
    /// Correlation id, echoed by the completion.
    pub wr_id: u64,
    pub opcode: WrOpcode,
    pub sge: Sge,
    /// Present for one-sided operations only.
    pub remote: Option<RemoteTarget>,
    /// Whether the request asks for a completion.
    pub signaled: bool,
}

/// Outcome reported by a work completion.
#[derive(Debug, Clone, Copy, PartialEq, Eq, Structural)]
pub enum WcStatus {
    Success,
    /// Any other status, with the code the device reported.
    Failure(u32),
}

/// Operation echoed by a work completion.
#[derive(Debug, Clone, Copy, PartialEq, Eq, Structural)]
pub enum WcOpcode {
    Send,
    RdmaWrite,
    RdmaRead,
    Recv,
    Other,
}

/// The asynchronous outcome of a signaled work request.
#[derive(Debug, Clone, Copy, PartialEq, Eq, Structural)]
pub struct WorkCompletion {
    pub wr_id: u64,
    pub status: WcStatus,
    pub opcode: WcOpcode,
}

/// Why a work request was not built.
#[derive(Debug, Clone, Copy, PartialEq, Eq, Structural)]
pub enum PostError {
    /// The queue pair has not reached READY-TO-SEND.
    NotReady { state: QpState },
}

/// The completion opcode that answers a request opcode.
pub open spec fn completion_of(op: WrOpcode) -> WcOpcode {
    match op {
        WrOpcode::Send => WcOpcode::Send,
        WrOpcode::Recv => WcOpcode::Recv,
        WrOpcode::RdmaRead => WcOpcode::RdmaRead,
        WrOpcode::RdmaWrite => WcOpcode::RdmaWrite,
    }
}

/// A completion is good for a request of kind `op` when it reports success
/// and echoes that kind.
pub open spec fn completion_ok(wc: WorkCompletion, op: WrOpcode) -> bool {
    wc.status == WcStatus::Success && wc.opcode == completion_of(op)
}

/// Decides `completion_ok`.
pub fn check_completion(wc: &WorkCompletion, op: WrOpcode) -> (ok: bool)
    ensures
        ok == completion_ok(*wc, op),
{
    let expected = match op {
        WrOpcode::Send => WcOpcode::Send,
        WrOpcode::Recv => WcOpcode::Recv,
        WrOpcode::RdmaRead => WcOpcode::RdmaRead,
        WrOpcode::RdmaWrite => WcOpcode::RdmaWrite,
    };
    wc.status == WcStatus::Success && wc.opcode == expected
}

/// The request that `post_read` and `post_write` build.
pub open spec fn one_sided(
    opcode: WrOpcode,
    local_addr: u64,
    length: usize,
    remote_addr: u64,
    rkey: u32,
    lkey: u32,
    wr_id: u64,
    signaled: bool,
) -> WorkRequest {
    WorkRequest {
        wr_id,
        opcode,
        sge: Sge { addr: local_addr, length, lkey },
        remote: Some(RemoteTarget { addr: remote_addr, rkey }),
        signaled,
    }
}

/// The request that `post_send` and `post_recv` build: always signaled, no
/// remote side.
pub open spec fn two_sided(
    opcode: WrOpcode,
    local_addr: u64,
    length: usize,
    lkey: u32,
    wr_id: u64,
) -> WorkRequest {
    WorkRequest {
        wr_id,
        opcode,
        sge: Sge { addr: local_addr, length, lkey },
        remote: None,
        signaled: true,
    }
}

fn post_read_or_write(
    local_addr: u64,
    length: usize,
    remote_addr: u64,
    rkey: u32,
    qp: &IbvQp,
    mr: &IbvMr,
    wr_id: u64,
    signaled: bool,
    opcode: WrOpcode,
) -> (r: Result<WorkRequest, PostError>)
    ensures
        qp.state() == QpState::ReadyToSend ==> r == Ok::<WorkRequest, PostError>(
            one_sided(opcode, local_addr, length, remote_addr, rkey, mr.lkey, wr_id, signaled),
        ),
        qp.state() != QpState::ReadyToSend ==> r == Err::<WorkRequest, PostError>(
            PostError::NotReady { state: qp.state() },
        ),
{
    if qp.can_post() {
        Ok(
            WorkRequest {
                wr_id,
                opcode,
                sge: Sge { addr: local_addr, length, lkey: mr.lkey },
                remote: Some(RemoteTarget { addr: remote_addr, rkey }),
                signaled,
            },
        )
    } else {
        Err(PostError::NotReady { state: qp.get_state() })
    }
}

/// Builds the request that reads `length` bytes at `remote_addr` on the peer
/// into the local buffer at `local_addr`, which lies in `mr`. Refused unless
/// the queue pair is in READY-TO-SEND.
pub fn post_read(
    local_addr: u64,
    length: usize,
    remote_addr: u64,
    rkey: u32,
    qp: &IbvQp,
    mr: &IbvMr,
    wr_id: u64,
    signaled: bool,
) -> (r: Result<WorkRequest, PostError>)
    ensures
        qp.state() == QpState::ReadyToSend ==> r == Ok::<WorkRequest, PostError>(
            one_sided(
                WrOpcode::RdmaRead,
                local_addr,
                length,
                remote_addr,
                rkey,
                mr.lkey,
                wr_id,
                signaled,
            ),
        ),
        qp.state() != QpState::ReadyToSend ==> r == Err::<WorkRequest, PostError>(
            PostError::NotReady { state: qp.state() },
        ),
{
    post_read_or_write(
        local_addr,
        length,
        remote_addr,
        rkey,
        qp,
        mr,
        wr_id,
        signaled,
        WrOpcode::RdmaRead,
    )
}

/// Builds the request that writes `length` bytes of the local buffer at
/// `local_addr`, which lies in `mr`, to `remote_addr` on the peer. Refused
/// unless the queue pair is in READY-TO-SEND.
pub fn post_write(
    local_addr: u64,
    length: usize,
    remote_addr: u64,
    rkey: u32,
    qp: &IbvQp,
    mr: &IbvMr,
    wr_id: u64,
    signaled: bool,
) -> (r: Result<WorkRequest, PostError>)
    ensures
        qp.state() == QpState::ReadyToSend ==> r == Ok::<WorkRequest, PostError>(
            one_sided(
                WrOpcode::RdmaWrite,
                local_addr,
                length,
                remote_addr,
                rkey,
                mr.lkey,
                wr_id,
                signaled,
            ),
        ),
        qp.state() != QpState::ReadyToSend ==> r == Err::<WorkRequest, PostError>(
            PostError::NotReady { state: qp.state() },
        ),
{
    post_read_or_write(
        local_addr,
        length,
        remote_addr,
        rkey,
        qp,
        mr,
        wr_id,
        signaled,
        WrOpcode::RdmaWrite,
    )
}

/// Builds the request that sends `length` bytes of the local buffer at
/// `local_addr`, registered under `lkey`.
pub fn post_send(local_addr: u64, length: usize, lkey: u32, wr_id: u64) -> (wr: WorkRequest)
    ensures
        wr == two_sided(WrOpcode::Send, local_addr, length, lkey, wr_id),
{
    WorkRequest {
        wr_id,
        opcode: WrOpcode::Send,
        sge: Sge { addr: local_addr, length, lkey },
        remote: None,
        signaled: true,
    }
}

/// Builds the request that receives up to `length` bytes into the local
/// buffer at `local_addr`, registered under `lkey`.
pub fn post_recv(local_addr: u64, length: usize, lkey: u32, wr_id: u64) -> (wr: WorkRequest)
    ensures
        wr == two_sided(WrOpcode::Recv, local_addr, length, lkey, wr_id),
{
    WorkRequest {
        wr_id,
        opcode: WrOpcode::Recv,
        sge: Sge { addr: local_addr, length, lkey },
        remote: None,
        signaled: true,
    }
}

/// Whether `r` is the right choice among the devices named `names`: with no
/// name asked for, the first device; with a name, the first device that
/// bears it; and none where there is no such device.
pub open spec fn is_selection(names: Seq<Seq<u8>>, wanted: Option<Seq<u8>>, r: Option<usize>) -> bool {
    match wanted {
        None => r == (if names.len() > 0 {
            Some(0usize)
        } else {
            None
        }),
        Some(w) => match r {
            Some(i) => i < names.len() && names[i as int] == w && forall|j: int|
                0 <= j < i ==> names[j] != w,
            None => forall|j: int| 0 <= j < names.len() ==> names[j] != w,
        },
    }
}

/// The names in a device list, as byte strings.
pub open spec fn names_of(names: Seq<Vec<u8>>) -> Seq<Seq<u8>> {
    Seq::new(names.len(), |i: int| names[i]@)
}

/// Decides whether two byte strings are equal.
pub fn bytes_eq(a: &[u8], b: &[u8]) -> (eq: bool)
    ensures
        eq == (a@ == b@),
{
    if a.len() != b.len() {
        return false;
    }
    let mut i: usize = 0;
    while i < a.len()
        invariant
            i <= a@.len(),
            a@.len() == b@.len(),
            forall|k: int| 0 <= k < i ==> a@[k] == b@[k],
        decreases a@.len() - i,
    {
        if a[i] != b[i] {
            return false;
        }
        i = i + 1;
    }
    proof {
        assert(a@ =~= b@);
    }
    true
}

/// Picks the device to open among those the adapter list names, in list
/// order: the first one when `dev_name` is `None`, else the first whose name
/// is `dev_name`.
pub fn select_device(names: &Vec<Vec<u8>>, dev_name: Option<&[u8]>) -> (r: Option<usize>)
    ensures
        is_selection(
            names_of(names@),
            match dev_name {
                Some(w) => Some(w@),
                None => None,
            },
            r,
        ),
{
    let ghost all = names_of(names@);
    match dev_name {
        None => {
            if names.len() > 0 {
                Some(0)
            } else {
                None
            }
        },
        Some(w) => {
            let mut i: usize = 0;
            while i < names.len()
                invariant
                    i <= names@.len(),
                    all == names_of(names@),
                    dev_name == Some(w),
                    forall|j: int| 0 <= j < i ==> all[j] != w@,
                decreases names@.len() - i,
            {
                if bytes_eq(names[i].as_slice(), w) {
                    return Some(i);
                }
                proof {
                    assert(all[i as int] == names@[i as int]@);
                }
                i = i + 1;
            }
            None
        },
    }
}

} // verus!
