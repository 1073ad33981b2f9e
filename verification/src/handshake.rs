//! The handshake that readies a queue pair over the control channel.
//!
//! Every role runs a fixed script: transitions of its queue pair, messages it
//! writes, frames it reads. A `Session` walks its script one step at a time.
//! It decides and the caller acts: `pending` says what to do, `step` takes in
//! what happened. Any failure is final.

use crate::connection::{
    addr_key_bytes, addr_key_of, encode_addr_key, encode_length, encode_mem_info,
    encode_qp_info, get_mem_info, get_qp_info, decode_addr_key, decode_length, length_bytes,
    length_of, mem_info_bytes, mem_info_of, qp_info_bytes, qp_info_of, wire_len, FrameError,
    FrameReader, FrameView, MemInfo, QpInfo, ADDR_KEY_LEN, LENGTH_LEN, MEM_INFO_LEN, QP_INFO_LEN,
};
use crate::rdma::verbs::{
    init2rtr, reset2init, rtr2rts, source, target, IbvQp, QpError, QpState, QpTransition,
};
use rand::Rng;
use vstd::prelude::*;

verus! {

/// Draws a packet sequence number: a call of `gen::<u32>()` on rand's
/// thread-local generator. The generator is seeded by the system, so nothing
/// is claimed of the value.
#[verifier::external_body]
fn random_psn() -> (psn: u32) {
    rand::thread_rng().gen::<u32>()
}

/// The local port every queue pair of this benchmark is bound to.
pub const PORT_NUM: u8 = 1;

/// The service level of every connection of this benchmark.
pub const SERVICE_LEVEL: u8 = 0;

/// The part an endpoint plays.
#[derive(Debug, Clone, Copy, PartialEq, Eq, Structural)]
pub enum Role {
    /// Either side of the symmetric exchange: both announce a buffer and both
    /// learn the other's.
    Peer,
    /// Reads the server's buffer: learns where it is.
    ReadClient,
    /// Offers its buffer for reading.
    ReadServer,
    /// Offers a buffer for writing, of the length the server announces.
    WriteClient,
    /// Writes its buffer to the client: announces the length, learns where
    /// to write.
    WriteServer,
}

/// One step of a script.
#[derive(Debug, Clone, Copy, PartialEq, Eq, Structural)]
pub enum Step {
    /// Move the queue pair from RESET to INIT.
    ToInit,
    /// Move the queue pair from INIT to READY-TO-RECEIVE, toward the peer.
    ToReadyToReceive,
    /// Move the queue pair from READY-TO-RECEIVE to READY-TO-SEND.
    ToReadyToSend,
    /// Write the local queue-pair triple.
    SendQpInfo,
    /// Write the local buffer descriptor.
    SendMemInfo,
    /// Write the length of the local buffer.
    SendLength,
    /// Write address and remote key of the local buffer.
    SendAddrKey,
    /// Read the peer's queue-pair triple.
    RecvQpInfo,
    /// Read the peer's buffer descriptor.
    RecvMemInfo,
    /// Read the peer's queue-pair triple and buffer descriptor as one frame.
    RecvQpAndMemInfo,
    /// Read the length of the peer's buffer.
    RecvLength,
    /// Read address and remote key of the peer's buffer.
    RecvAddrKey,
    /// Register a local buffer of the length the peer announced.
    Register,
}

/// The script of a role.
pub open spec fn script(role: Role) -> Seq<Step> {
    match role {
        Role::Peer => seq![
            Step::ToInit,
            Step::SendQpInfo,
            Step::SendMemInfo,
            Step::RecvQpAndMemInfo,
            Step::ToReadyToReceive,
            Step::ToReadyToSend,
        ],
        Role::ReadClient => seq![
            Step::ToInit,
            Step::SendQpInfo,
            Step::RecvQpInfo,
            Step::ToReadyToReceive,
            Step::ToReadyToSend,
            Step::RecvMemInfo,
        ],
        Role::ReadServer => seq![
            Step::ToInit,
            Step::SendQpInfo,
            Step::RecvQpInfo,
            Step::ToReadyToReceive,
            Step::ToReadyToSend,
            Step::SendMemInfo,
        ],
        Role::WriteClient => seq![
            Step::ToInit,
            Step::SendQpInfo,
            Step::RecvQpInfo,
            Step::ToReadyToReceive,
            Step::ToReadyToSend,
            Step::RecvLength,
            Step::Register,
            Step::SendAddrKey,
        ],
        Role::WriteServer => seq![
            Step::ToInit,
            Step::SendQpInfo,
            Step::RecvQpInfo,
            Step::ToReadyToReceive,
            Step::ToReadyToSend,
            Step::SendLength,
            Step::RecvAddrKey,
        ],
    }
}

/// The step at position `pc` of a role's script, if the script has one.
pub open spec fn step_at(role: Role, pc: nat) -> Option<Step> {
    if pc < script(role).len() {
        Some(script(role)[pc as int])
    } else {
        None
    }
}

/// Number of bytes of the frame that a step reads; zero for a step that
/// reads nothing.
pub open spec fn frame_len(step: Option<Step>) -> nat {
    match step {
        Some(Step::RecvQpInfo) => QP_INFO_LEN as nat,
        Some(Step::RecvMemInfo) => MEM_INFO_LEN as nat,
        Some(Step::RecvQpAndMemInfo) => (QP_INFO_LEN + MEM_INFO_LEN) as nat,
        Some(Step::RecvLength) => LENGTH_LEN as nat,
        Some(Step::RecvAddrKey) => ADDR_KEY_LEN as nat,
        _ => 0,
    }
}

/// Whether the role has a buffer of its own to announce from the start.
pub open spec fn announces_region(role: Role) -> bool {
    role == Role::Peer || role == Role::ReadServer || role == Role::WriteServer
}

/// Decides `step_at`.
pub fn script_step(role: Role, pc: usize) -> (s: Option<Step>)
    ensures
        s == step_at(role, pc as nat),
{
    match role {
        Role::Peer => match pc {
            0 => Some(Step::ToInit),
            1 => Some(Step::SendQpInfo),
            2 => Some(Step::SendMemInfo),
            3 => Some(Step::RecvQpAndMemInfo),
            4 => Some(Step::ToReadyToReceive),
            5 => Some(Step::ToReadyToSend),
            _ => None,
        },
        Role::ReadClient => match pc {
            0 => Some(Step::ToInit),
            1 => Some(Step::SendQpInfo),
            2 => Some(Step::RecvQpInfo),
            3 => Some(Step::ToReadyToReceive),
            4 => Some(Step::ToReadyToSend),
            5 => Some(Step::RecvMemInfo),
            _ => None,
        },
        Role::ReadServer => match pc {
            0 => Some(Step::ToInit),
            1 => Some(Step::SendQpInfo),
            2 => Some(Step::RecvQpInfo),
            3 => Some(Step::ToReadyToReceive),
            4 => Some(Step::ToReadyToSend),
            5 => Some(Step::SendMemInfo),
            _ => None,
        },
        Role::WriteClient => match pc {
            0 => Some(Step::ToInit),
            1 => Some(Step::SendQpInfo),
            2 => Some(Step::RecvQpInfo),
            3 => Some(Step::ToReadyToReceive),
            4 => Some(Step::ToReadyToSend),
            5 => Some(Step::RecvLength),
            6 => Some(Step::Register),
            7 => Some(Step::SendAddrKey),
            _ => None,
        },
        Role::WriteServer => match pc {
            0 => Some(Step::ToInit),
            1 => Some(Step::SendQpInfo),
            2 => Some(Step::RecvQpInfo),
            3 => Some(Step::ToReadyToReceive),
            4 => Some(Step::ToReadyToSend),
            5 => Some(Step::SendLength),
            6 => Some(Step::RecvAddrKey),
            _ => None,
        },
    }
}

/// Decides `frame_len`.
pub fn step_frame_len(step: Option<Step>) -> (n: usize)
    ensures
        n == frame_len(step),
{
    match step {
        Some(Step::RecvQpInfo) => QP_INFO_LEN,
        Some(Step::RecvMemInfo) => MEM_INFO_LEN,
        Some(Step::RecvQpAndMemInfo) => QP_INFO_LEN + MEM_INFO_LEN,
        Some(Step::RecvLength) => LENGTH_LEN,
        Some(Step::RecvAddrKey) => ADDR_KEY_LEN,
        _ => 0,
    }
}

/// Why a handshake ended without a connection.
#[derive(Debug, Clone, Copy, PartialEq, Eq, Structural)]
pub enum HandshakeError {
    /// The role announces a buffer and none was given.
    NoRegion,
    /// The queue pair refused a transition.
    Qp(QpError),
    /// A frame could not be completed.
    Frame(FrameError),
    /// The caller reported that the device or the stream failed.
    Failed,
    /// The event does not answer the action that was pending.
    UnexpectedEvent,
    /// A step needs what no earlier step has provided. No script of this
    /// crate leads here.
    Unprepared,
}

/// What a session asks its caller to do.
#[derive(Debug, PartialEq, Eq)]
pub enum Action {
    /// Apply this transition to the queue pair, then report `Modified`.
    Modify(QpTransition),
    /// Write all of these bytes to the control stream, then report `Sent`.
    Send(Vec<u8>),
    /// Read from the control stream, at most this many bytes, and report
    /// `Received` with what the read delivered.
    Receive(usize),
    /// Allocate and register a buffer of this many bytes, then report
    /// `Registered` with its address and remote key.
    Register(usize),
    /// The handshake is complete.
    Done,
}

/// An action, with the bytes to send as a sequence.
pub enum ActionView {
    Modify(QpTransition),
    Send(Seq<u8>),
    Receive(usize),
    Register(usize),
    Done,
}

impl View for Action {
    type V = ActionView;

    open spec fn view(&self) -> ActionView {
        match *self {
            Action::Modify(t) => ActionView::Modify(t),
            Action::Send(bytes) => ActionView::Send(bytes@),
            Action::Receive(n) => ActionView::Receive(n),
            Action::Register(n) => ActionView::Register(n),
            Action::Done => ActionView::Done,
        }
    }
}

/// What the caller reports back.
#[derive(Debug, PartialEq, Eq)]
pub enum Event {
    /// The device applied the transition.
    Modified,
    /// The bytes were written.
    Sent,
    /// A read delivered these bytes; none means the stream has ended.
    Received(Vec<u8>),
    /// The buffer was registered at `addr` under `rkey`.
    Registered { addr: u64, rkey: u32 },
    /// The device or the stream failed.
    Failed,
}

/// The abstract state of a session.
pub struct SessionState {
    pub role: Role,
    /// Position in the script of the step in progress.
    pub pc: nat,
    /// State of the local queue pair.
    pub qp: QpState,
    /// The local queue-pair triple.
    pub local: QpInfo,
    /// The local buffer, once there is one.
    pub region: Option<MemInfo>,
    /// The peer's queue-pair triple, once received.
    pub peer: Option<QpInfo>,
    /// The peer's buffer, once known.
    pub remote: Option<MemInfo>,
    /// The length the peer announced, once received.
    pub announced: Option<usize>,
    /// Bytes gathered of the frame in progress.
    pub gathered: Seq<u8>,
    /// The error that ended the handshake, if one did.
    pub failure: Option<HandshakeError>,
}

impl SessionState {
    /// The state a session starts in.
    pub open spec fn initial(
        role: Role,
        qp: QpState,
        local: QpInfo,
        region: Option<MemInfo>,
    ) -> SessionState {
        SessionState {
            role,
            pc: 0,
            qp,
            local,
            region,
            peer: None,
            remote: None,
            announced: None,
            gathered: Seq::empty(),
            failure: None,
        }
    }

    /// The step in progress, if the script has not run out.
    pub open spec fn current(self) -> Option<Step> {
        step_at(self.role, self.pc)
    }

    /// The reader of the frame in progress.
    pub open spec fn frame(self) -> FrameView {
        FrameView { need: frame_len(self.current()), data: self.gathered }
    }

    /// The transition a step applies, as far as the state provides for it.
    pub open spec fn transition(self, step: Step) -> Option<QpTransition> {
        match step {
            Step::ToInit => Some(reset2init(PORT_NUM)),
            Step::ToReadyToReceive => match self.peer {
                Some(p) => Some(init2rtr(SERVICE_LEVEL, PORT_NUM, p.qpn, p.psn, p.lid)),
                None => None,
            },
            Step::ToReadyToSend => Some(rtr2rts(self.local.psn)),
            _ => None,
        }
    }

    /// The message a step writes, as far as the state provides for it.
    pub open spec fn message(self, step: Step) -> Option<Seq<u8>> {
        match step {
            Step::SendQpInfo => Some(qp_info_bytes(self.local)),
            Step::SendMemInfo => match self.region {
                Some(m) => Some(mem_info_bytes(m)),
                None => None,
            },
            Step::SendLength => match self.region {
                Some(m) => Some(length_bytes(m.len)),
                None => None,
            },
            Step::SendAddrKey => match self.region {
                Some(m) => Some(addr_key_bytes(m.addr, m.rkey)),
                None => None,
            },
            _ => None,
        }
    }

    /// What the session answers in this state: the error once it has failed,
    /// the action its step calls for otherwise.
    pub open spec fn outcome(self) -> Result<ActionView, HandshakeError> {
        match self.failure {
            Some(e) => Err(e),
            None => match self.current() {
                None => Ok(ActionView::Done),
                Some(step) => match step {
                    Step::ToInit | Step::ToReadyToReceive | Step::ToReadyToSend => match self.transition(
                        step,
                    ) {
                        None => Err(HandshakeError::Unprepared),
                        Some(t) => if self.qp == source(t) {
                            Ok(ActionView::Modify(t))
                        } else {
                            Err(HandshakeError::Qp(QpError::OutOfOrder { from: self.qp }))
                        },
                    },
                    Step::SendQpInfo | Step::SendMemInfo | Step::SendLength | Step::SendAddrKey => match self.message(
                        step,
                    ) {
                        None => Err(HandshakeError::Unprepared),
                        Some(bytes) => Ok(ActionView::Send(bytes)),
                    },
                    Step::RecvQpInfo | Step::RecvMemInfo | Step::RecvQpAndMemInfo | Step::RecvLength | Step::RecvAddrKey => Ok(
                        ActionView::Receive(self.frame().remaining() as usize),
                    ),
                    Step::Register => match self.announced {
                        None => Err(HandshakeError::Unprepared),
                        Some(len) => Ok(ActionView::Register(len)),
                    },
                },
            },
        }
    }

    /// This state, ended by `e`.
    pub open spec fn failed(self, e: HandshakeError) -> SessionState {
        SessionState { failure: Some(e), ..self }
    }

    /// This state, moved on to the next step of the script.
    pub open spec fn advanced(self) -> SessionState {
        SessionState { pc: self.pc + 1, gathered: Seq::empty(), ..self }
    }

    /// This state after the frame `data` of the step in progress was read in
    /// full.
    pub open spec fn absorbed(self, data: Seq<u8>) -> SessionState {
        match self.current() {
            Some(Step::RecvQpInfo) => SessionState { peer: Some(qp_info_of(data)), ..self },
            Some(Step::RecvMemInfo) => SessionState { remote: Some(mem_info_of(data)), ..self },
            Some(Step::RecvQpAndMemInfo) => SessionState {
                peer: Some(qp_info_of(data.subrange(0, QP_INFO_LEN as int))),
                remote: Some(
                    mem_info_of(data.subrange(QP_INFO_LEN as int, QP_INFO_LEN + MEM_INFO_LEN)),
                ),
                ..self
            },
            Some(Step::RecvLength) => SessionState { announced: Some(length_of(data)), ..self },
            Some(Step::RecvAddrKey) => SessionState {
                remote: Some(
                    MemInfo {
                        addr: addr_key_of(data).0,
                        len: match self.region {
                            Some(m) => wire_len(m.len) as usize,
                            None => 0,
                        },
                        rkey: addr_key_of(data).1,
                    },
                ),
                ..self
            },
            _ => self,
        }
    }

    /// The state after `ev`. A session that cannot go on stays where it is,
    /// failed. A reported failure ends it. Otherwise the event must answer
    /// the pending action: a transition applied moves the queue pair to its
    /// target; bytes written move on; bytes read are added to the frame,
    /// which is decoded once complete; a registered buffer becomes the local
    /// region. Anything else ends the session.
    pub open spec fn next(self, ev: Event) -> SessionState {
        match self.outcome() {
            Err(e) => self.failed(e),
            Ok(action) => match (action, ev) {
                (_, Event::Failed) => self.failed(HandshakeError::Failed),
                (ActionView::Modify(t), Event::Modified) => SessionState {
                    qp: target(t),
                    ..self.advanced()
                },
                (ActionView::Send(_), Event::Sent) => self.advanced(),
                (ActionView::Receive(_), Event::Received(bytes)) => match self.frame().feed(
                    bytes@,
                ) {
                    Err(e) => self.failed(HandshakeError::Frame(e)),
                    Ok(v) => if v.complete() {
                        self.absorbed(v.data).advanced()
                    } else {
                        SessionState { gathered: v.data, ..self }
                    },
                },
                (ActionView::Register(len), Event::Registered { addr, rkey }) => SessionState {
                    region: Some(MemInfo { addr, len, rkey }),
                    ..self.advanced()
                },
                _ => self.failed(HandshakeError::UnexpectedEvent),
            },
        }
    }
}

/// The queue-pair state a role has reached when it stands at position `pc`
/// of its script: RESET at the start, and after each transition its target.
pub open spec fn qp_state_at(role: Role, pc: nat) -> QpState
    decreases pc,
{
    if pc == 0 {
        QpState::Reset
    } else {
        match step_at(role, (pc - 1) as nat) {
            Some(Step::ToInit) => QpState::Init,
            Some(Step::ToReadyToReceive) => QpState::ReadyToReceive,
            Some(Step::ToReadyToSend) => QpState::ReadyToSend,
            _ => qp_state_at(role, (pc - 1) as nat),
        }
    }
}

/// Whether a role standing at `pc` has read the peer's queue-pair triple.
pub open spec fn knows_peer(role: Role, pc: nat) -> bool
    decreases pc,
{
    pc > 0 && (knows_peer(role, (pc - 1) as nat) || step_at(role, (pc - 1) as nat) == Some(
        Step::RecvQpInfo,
    ) || step_at(role, (pc - 1) as nat) == Some(Step::RecvQpAndMemInfo))
}

/// Whether a role standing at `pc` has learned of the peer's buffer.
pub open spec fn knows_remote(role: Role, pc: nat) -> bool
    decreases pc,
{
    pc > 0 && (knows_remote(role, (pc - 1) as nat) || step_at(role, (pc - 1) as nat) == Some(
        Step::RecvMemInfo,
    ) || step_at(role, (pc - 1) as nat) == Some(Step::RecvQpAndMemInfo) || step_at(
        role,
        (pc - 1) as nat,
    ) == Some(Step::RecvAddrKey))
}

/// Whether a role standing at `pc` has read the length the peer announced.
pub open spec fn knows_length(role: Role, pc: nat) -> bool
    decreases pc,
{
    pc > 0 && (knows_length(role, (pc - 1) as nat) || step_at(role, (pc - 1) as nat) == Some(
        Step::RecvLength,
    ))
}

/// Whether a role standing at `pc` has a buffer of its own.
pub open spec fn has_region(role: Role, pc: nat) -> bool
    decreases pc,
{
    announces_region(role) || (pc > 0 && (has_region(role, (pc - 1) as nat) || step_at(
        role,
        (pc - 1) as nat,
    ) == Some(Step::Register)))
}

impl SessionState {
    /// What holds of every state a session can be in. It stands inside its
    /// script or right at its end; the frame in progress is incomplete; and,
    /// unless it has failed, its queue pair is in the state the script has
    /// led to and it holds everything the steps behind it have provided.
    pub open spec fn wf(self) -> bool {
        &&& self.pc <= script(self.role).len()
        &&& self.gathered.len() <= frame_len(self.current())
        &&& frame_len(self.current()) > 0 ==> self.gathered.len() < frame_len(self.current())
        &&& self.failure is None ==> {
            &&& self.qp == qp_state_at(self.role, self.pc)
            &&& knows_peer(self.role, self.pc) ==> self.peer is Some
            &&& knows_remote(self.role, self.pc) ==> self.remote is Some
            &&& knows_length(self.role, self.pc) ==> self.announced is Some
            &&& has_region(self.role, self.pc) ==> self.region is Some
        }
    }
}

/// What the scripts guarantee, position by position: a transition is reached
/// with the queue pair in the state it starts from, READY-TO-RECEIVE only
/// with the peer's triple in hand, a buffer is announced only by a role that
/// has one, and one is registered only once its length is known.
pub proof fn lemma_scripts_in_order(role: Role, pc: nat)
    ensures
        script(role).len() <= 8,
        step_at(role, pc) == Some(Step::ToInit) ==> qp_state_at(role, pc) == QpState::Reset,
        step_at(role, pc) == Some(Step::ToReadyToReceive) ==> qp_state_at(role, pc)
            == QpState::Init && knows_peer(role, pc),
        step_at(role, pc) == Some(Step::ToReadyToSend) ==> qp_state_at(role, pc)
            == QpState::ReadyToReceive,
        step_at(role, pc) == Some(Step::SendMemInfo) || step_at(role, pc) == Some(
            Step::SendLength,
        ) || step_at(role, pc) == Some(Step::SendAddrKey) ==> has_region(role, pc),
        step_at(role, pc) == Some(Step::RecvAddrKey) ==> has_region(role, pc),
        step_at(role, pc) == Some(Step::Register) ==> knows_length(role, pc),
        pc == script(role).len() ==> {
            &&& knows_peer(role, pc)
            &&& qp_state_at(role, pc) == QpState::ReadyToSend
            &&& role != Role::ReadServer && role != Role::WriteClient ==> knows_remote(role, pc)
            &&& has_region(role, pc) <==> role != Role::ReadClient
        },
{
    reveal_with_fuel(qp_state_at, 10);
    reveal_with_fuel(knows_peer, 10);
    reveal_with_fuel(knows_remote, 10);
    reveal_with_fuel(knows_length, 10);
    reveal_with_fuel(has_region, 10);
    if pc <= 8 {
        match role {
            Role::Peer => {},
            Role::ReadClient => {},
            Role::ReadServer => {},
            Role::WriteClient => {},
            Role::WriteServer => {},
        }
    }
}

/// Well-formedness is kept: whatever is reported, a well-formed state is
/// followed by a well-formed one, in the same role, at the same position or
/// the next.
pub proof fn lemma_next_wf(s: SessionState, ev: Event)
    requires
        s.wf(),
    ensures
        s.next(ev).wf(),
        s.next(ev).role == s.role,
        s.next(ev).local == s.local,
        s.next(ev).pc == s.pc || s.next(ev).pc == s.pc + 1,
{
    lemma_scripts_in_order(s.role, s.pc);
    let n = s.next(ev);
    if n.pc == s.pc + 1 {
        lemma_scripts_in_order(s.role, n.pc);
        assert(step_at(s.role, (n.pc - 1) as nat) == s.current());
    }
}

/// A handshake fails only from outside. A well-formed session that has not
/// failed always has an action to ask for: its script never leaves it
/// unprepared, and never asks for a transition out of order.
pub proof fn lemma_never_stalls(s: SessionState)
    requires
        s.wf(),
        s.failure is None,
    ensures
        s.outcome() is Ok,
        s.outcome() == Ok::<ActionView, HandshakeError>(ActionView::Done) <==> s.pc == script(
            s.role,
        ).len(),
        s.outcome()->Ok_0 is Receive ==> 0 < s.outcome()->Ok_0->Receive_0 <= frame_len(
            s.current(),
        ),
{
    lemma_scripts_in_order(s.role, s.pc);
}

/// What a completed handshake has achieved, whatever the role: the queue
/// pair is in READY-TO-SEND; the peer's triple is known; the roles that reach into the peer's
/// buffer know where it is; and every role but the read client has a buffer
/// that the peer was told of.
pub proof fn lemma_done(s: SessionState)
    requires
        s.wf(),
        s.outcome() == Ok::<ActionView, HandshakeError>(ActionView::Done),
    ensures
        s.qp == QpState::ReadyToSend,
        s.peer is Some,
        s.role == Role::Peer || s.role == Role::ReadClient || s.role == Role::WriteServer
            ==> s.remote is Some,
        s.role != Role::ReadClient ==> s.region is Some,
{
    lemma_scripts_in_order(s.role, s.pc);
}

impl SessionState {
    /// The state after the events `evs`, taken in one after the other.
    pub open spec fn after(self, evs: Seq<Event>) -> SessionState
        decreases evs.len(),
    {
        if evs.len() == 0 {
            self
        } else {
            self.next(evs[0]).after(evs.skip(1))
        }
    }
}

/// A run of events takes a well-formed state to a well-formed state of the
/// same role, no earlier in its script.
pub proof fn lemma_after_wf(s: SessionState, evs: Seq<Event>)
    requires
        s.wf(),
    ensures
        s.after(evs).wf(),
        s.after(evs).role == s.role,
        s.after(evs).local == s.local,
        s.after(evs).pc >= s.pc,
    decreases evs.len(),
{
    if evs.len() > 0 {
        lemma_next_wf(s, evs[0]);
        lemma_after_wf(s.next(evs[0]), evs.skip(1));
    }
}

/// However a handshake went, if it is done, then the queue pair has gone
/// through every transition of its role, in order, and the peer is known:
/// there is no way to the end of a script past a step.
pub proof fn lemma_completed_handshake(
    role: Role,
    local: QpInfo,
    region: Option<MemInfo>,
    evs: Seq<Event>,
)
    requires
        announces_region(role) ==> region is Some,
        SessionState::initial(role, QpState::Reset, local, region).after(evs).outcome() == Ok::<
            ActionView,
            HandshakeError,
        >(ActionView::Done),
    ensures
        ({
            let end = SessionState::initial(role, QpState::Reset, local, region).after(evs);
            &&& end.qp == QpState::ReadyToSend
            &&& end.peer is Some
            &&& role == Role::Peer || role == Role::ReadClient || role == Role::WriteServer
                ==> end.remote is Some
            &&& role != Role::ReadClient ==> end.region is Some
        }),
{
    let start = SessionState::initial(role, QpState::Reset, local, region);
    reveal_with_fuel(has_region, 2);
    assert(start.wf());
    lemma_after_wf(start, evs);
    lemma_done(start.after(evs));
}

/// What one endpoint writes, the other reads: a session that waits for the
/// peer's triple and is handed the message that carries `q`, in one read,
/// holds `q` as its peer afterwards and has moved on.
pub proof fn lemma_triple_arrives(s: SessionState, q: QpInfo, ev: Event)
    requires
        s.wf(),
        s.failure is None,
        s.current() == Some(Step::RecvQpInfo),
        s.gathered.len() == 0,
        ev matches Event::Received(bytes) && bytes@ == qp_info_bytes(q),
    ensures
        s.next(ev).failure is None,
        s.next(ev).pc == s.pc + 1,
        s.next(ev).peer == Some(q),
{
    crate::connection::lemma_qp_info_roundtrip(q);
    assert(s.gathered + qp_info_bytes(q) =~= qp_info_bytes(q));
}

/// A session that waits for the peer's buffer descriptor and is handed the
/// message that carries `m`, in one read, holds `m` as the remote buffer
/// afterwards, provided the length of `m` fits the 32 bits it travels in.
pub proof fn lemma_descriptor_arrives(s: SessionState, m: MemInfo, ev: Event)
    requires
        s.wf(),
        s.failure is None,
        s.current() == Some(Step::RecvMemInfo),
        s.gathered.len() == 0,
        m.len <= u32::MAX,
        ev matches Event::Received(bytes) && bytes@ == mem_info_bytes(m),
    ensures
        s.next(ev).failure is None,
        s.next(ev).pc == s.pc + 1,
        s.next(ev).remote == Some(m),
{
    crate::connection::lemma_mem_info_roundtrip(m);
    assert(s.gathered + mem_info_bytes(m) =~= mem_info_bytes(m));
}

/// A session that waits for triple and descriptor in one frame and is
/// handed the two messages back to back, in one read, holds both
/// afterwards.
pub proof fn lemma_both_arrive(s: SessionState, q: QpInfo, m: MemInfo, ev: Event)
    requires
        s.wf(),
        s.failure is None,
        s.current() == Some(Step::RecvQpAndMemInfo),
        s.gathered.len() == 0,
        m.len <= u32::MAX,
        ev matches Event::Received(bytes) && bytes@ == qp_info_bytes(q) + mem_info_bytes(m),
    ensures
        s.next(ev).failure is None,
        s.next(ev).pc == s.pc + 1,
        s.next(ev).peer == Some(q),
        s.next(ev).remote == Some(m),
{
    crate::connection::lemma_qp_info_roundtrip(q);
    crate::connection::lemma_mem_info_roundtrip(m);
    let all = qp_info_bytes(q) + mem_info_bytes(m);
    assert(s.gathered + all =~= all);
    assert(all.subrange(0, QP_INFO_LEN as int) =~= qp_info_bytes(q));
    assert(all.subrange(QP_INFO_LEN as int, QP_INFO_LEN + MEM_INFO_LEN) =~= mem_info_bytes(m));
}

/// The symmetric handshake, walked from its start: the session moves its
/// queue pair to INIT, writes its own triple, then its own descriptor, and
/// asks for the peer's 26 bytes. Handed the triple `q` and the descriptor
/// `m` as the peer encoded them, it asks for the transition to
/// READY-TO-RECEIVE with exactly the peer's number, sequence number and link
/// identifier, then for the one to READY-TO-SEND with its own sequence
/// number, and is done. It then holds `q` as its peer and, as the remote
/// buffer, `m` with its length as it travels, which is `m` itself when the
/// length fits 32 bits.
pub proof fn lemma_peer_handshake(local: QpInfo, region: MemInfo, q: QpInfo, m: MemInfo, ev: Event)
    requires
        ev matches Event::Received(bytes) && bytes@ == qp_info_bytes(q) + mem_info_bytes(m),
    ensures
        ({
            let s0 = SessionState::initial(Role::Peer, QpState::Reset, local, Some(region));
            let s1 = s0.next(Event::Modified);
            let s2 = s1.next(Event::Sent);
            let s3 = s2.next(Event::Sent);
            let s4 = s3.next(ev);
            let s5 = s4.next(Event::Modified);
            let s6 = s5.next(Event::Modified);
            &&& s0.wf()
            &&& s0.outcome() == Ok::<ActionView, HandshakeError>(
                ActionView::Modify(reset2init(PORT_NUM)),
            )
            &&& s1.outcome() == Ok::<ActionView, HandshakeError>(
                ActionView::Send(qp_info_bytes(local)),
            )
            &&& s2.outcome() == Ok::<ActionView, HandshakeError>(
                ActionView::Send(mem_info_bytes(region)),
            )
            &&& s3.outcome() == Ok::<ActionView, HandshakeError>(ActionView::Receive(26))
            &&& s4.outcome() == Ok::<ActionView, HandshakeError>(
                ActionView::Modify(init2rtr(SERVICE_LEVEL, PORT_NUM, q.qpn, q.psn, q.lid)),
            )
            &&& s5.outcome() == Ok::<ActionView, HandshakeError>(
                ActionView::Modify(rtr2rts(local.psn)),
            )
            &&& s6.outcome() == Ok::<ActionView, HandshakeError>(ActionView::Done)
            &&& s6.qp == QpState::ReadyToSend
            &&& s6.peer == Some(q)
            &&& s6.remote == Some(
                MemInfo { addr: m.addr, len: wire_len(m.len) as usize, rkey: m.rkey },
            )
            &&& m.len <= u32::MAX ==> s6.remote == Some(m)
        }),
{
    crate::connection::lemma_qp_info_roundtrip(q);
    crate::connection::lemma_mem_info_wire(m);
    let all = qp_info_bytes(q) + mem_info_bytes(m);
    assert(Seq::<u8>::empty() + all =~= all);
    assert(all.subrange(0, QP_INFO_LEN as int) =~= qp_info_bytes(q));
    assert(all.subrange(QP_INFO_LEN as int, QP_INFO_LEN + MEM_INFO_LEN) =~= mem_info_bytes(m));
    let s0 = SessionState::initial(Role::Peer, QpState::Reset, local, Some(region));
    let s1 = s0.next(Event::Modified);
    let s2 = s1.next(Event::Sent);
    let s3 = s2.next(Event::Sent);
    let s4 = s3.next(ev);
    let s5 = s4.next(Event::Modified);
    assert(s1.pc == 1 && s2.pc == 2 && s3.pc == 3);
    assert(s4.pc == 4);
    assert(s5.pc == 5);
}

/// The read server's handshake, walked from its start: the session moves
/// its queue pair to INIT, writes its own triple and asks for the peer's 10
/// bytes. Handed the triple `q` as the peer encoded it, it asks for the
/// transition to READY-TO-RECEIVE with exactly the peer's values, then for
/// the one to READY-TO-SEND with the sequence number it sent, then writes
/// the descriptor of its buffer, which decodes to its address, the low 32
/// bits of its length and its key, and is done.
pub proof fn lemma_read_server_handshake(local: QpInfo, region: MemInfo, q: QpInfo, ev: Event)
    requires
        ev matches Event::Received(bytes) && bytes@ == qp_info_bytes(q),
    ensures
        ({
            let s0 = SessionState::initial(Role::ReadServer, QpState::Reset, local, Some(region));
            let s1 = s0.next(Event::Modified);
            let s2 = s1.next(Event::Sent);
            let s3 = s2.next(ev);
            let s4 = s3.next(Event::Modified);
            let s5 = s4.next(Event::Modified);
            let s6 = s5.next(Event::Sent);
            &&& s0.wf()
            &&& s0.outcome() == Ok::<ActionView, HandshakeError>(
                ActionView::Modify(reset2init(PORT_NUM)),
            )
            &&& s1.outcome() == Ok::<ActionView, HandshakeError>(
                ActionView::Send(qp_info_bytes(local)),
            )
            &&& s2.outcome() == Ok::<ActionView, HandshakeError>(ActionView::Receive(10))
            &&& s3.outcome() == Ok::<ActionView, HandshakeError>(
                ActionView::Modify(init2rtr(SERVICE_LEVEL, PORT_NUM, q.qpn, q.psn, q.lid)),
            )
            &&& s4.outcome() == Ok::<ActionView, HandshakeError>(
                ActionView::Modify(rtr2rts(local.psn)),
            )
            &&& s5.outcome() == Ok::<ActionView, HandshakeError>(
                ActionView::Send(mem_info_bytes(region)),
            )
            &&& s6.outcome() == Ok::<ActionView, HandshakeError>(ActionView::Done)
            &&& s6.qp == QpState::ReadyToSend
            &&& s6.peer == Some(q)
            &&& mem_info_of(mem_info_bytes(region)) == (MemInfo {
                addr: region.addr,
                len: wire_len(region.len) as usize,
                rkey: region.rkey,
            })
            &&& region.len <= u32::MAX ==> mem_info_of(mem_info_bytes(region)) == region
        }),
{
    crate::connection::lemma_qp_info_roundtrip(q);
    crate::connection::lemma_mem_info_wire(region);
    assert(Seq::<u8>::empty() + qp_info_bytes(q) =~= qp_info_bytes(q));
    let s0 = SessionState::initial(Role::ReadServer, QpState::Reset, local, Some(region));
    let s1 = s0.next(Event::Modified);
    let s2 = s1.next(Event::Sent);
    let s3 = s2.next(ev);
    let s4 = s3.next(Event::Modified);
    let s5 = s4.next(Event::Modified);
    assert(s1.pc == 1 && s2.pc == 2);
    assert(s3.pc == 3);
    assert(s4.pc == 4);
    assert(s5.pc == 5);
}

/// The read client's handshake, walked from its start: after its own
/// transitions and the exchange of triples it asks for the server's 16
/// bytes. Handed the descriptor `m` as the server encoded it, it is done and
/// holds, as the remote buffer, `m` with its length as it travels, which is
/// `m` itself when the length fits 32 bits.
pub proof fn lemma_read_client_handshake(local: QpInfo, q: QpInfo, m: MemInfo, ev: Event, last: Event)
    requires
        ev matches Event::Received(bytes) && bytes@ == qp_info_bytes(q),
        last matches Event::Received(bytes) && bytes@ == mem_info_bytes(m),
    ensures
        ({
            let s0 = SessionState::initial(Role::ReadClient, QpState::Reset, local, None);
            let s1 = s0.next(Event::Modified);
            let s2 = s1.next(Event::Sent);
            let s3 = s2.next(ev);
            let s4 = s3.next(Event::Modified);
            let s5 = s4.next(Event::Modified);
            let s6 = s5.next(last);
            &&& s0.wf()
            &&& s1.outcome() == Ok::<ActionView, HandshakeError>(
                ActionView::Send(qp_info_bytes(local)),
            )
            &&& s3.outcome() == Ok::<ActionView, HandshakeError>(
                ActionView::Modify(init2rtr(SERVICE_LEVEL, PORT_NUM, q.qpn, q.psn, q.lid)),
            )
            &&& s4.outcome() == Ok::<ActionView, HandshakeError>(
                ActionView::Modify(rtr2rts(local.psn)),
            )
            &&& s5.outcome() == Ok::<ActionView, HandshakeError>(ActionView::Receive(16))
            &&& s6.outcome() == Ok::<ActionView, HandshakeError>(ActionView::Done)
            &&& s6.qp == QpState::ReadyToSend
            &&& s6.peer == Some(q)
            &&& s6.remote == Some(
                MemInfo { addr: m.addr, len: wire_len(m.len) as usize, rkey: m.rkey },
            )
            &&& m.len <= u32::MAX ==> s6.remote == Some(m)
        }),
{
    crate::connection::lemma_qp_info_roundtrip(q);
    crate::connection::lemma_mem_info_wire(m);
    assert(Seq::<u8>::empty() + qp_info_bytes(q) =~= qp_info_bytes(q));
    assert(Seq::<u8>::empty() + mem_info_bytes(m) =~= mem_info_bytes(m));
    let s0 = SessionState::initial(Role::ReadClient, QpState::Reset, local, None);
    let s1 = s0.next(Event::Modified);
    let s2 = s1.next(Event::Sent);
    let s3 = s2.next(ev);
    let s4 = s3.next(Event::Modified);
    let s5 = s4.next(Event::Modified);
    assert(s1.pc == 1 && s2.pc == 2);
    assert(s3.pc == 3);
    assert(s4.pc == 4);
    assert(s5.pc == 5);
}

/// The write server's handshake, walked from its start: after its own
/// transitions and the exchange of triples it writes the length of its
/// buffer, as it travels, and asks for the client's 12 bytes. Handed the
/// address and key as the client encoded them, it is done and holds them as
/// the remote buffer.
pub proof fn lemma_write_server_handshake(
    local: QpInfo,
    region: MemInfo,
    q: QpInfo,
    addr: u64,
    rkey: u32,
    ev: Event,
    last: Event,
)
    requires
        ev matches Event::Received(bytes) && bytes@ == qp_info_bytes(q),
        last matches Event::Received(bytes) && bytes@ == addr_key_bytes(addr, rkey),
    ensures
        ({
            let s0 = SessionState::initial(Role::WriteServer, QpState::Reset, local, Some(region));
            let s1 = s0.next(Event::Modified);
            let s2 = s1.next(Event::Sent);
            let s3 = s2.next(ev);
            let s4 = s3.next(Event::Modified);
            let s5 = s4.next(Event::Modified);
            let s6 = s5.next(Event::Sent);
            let s7 = s6.next(last);
            &&& s0.wf()
            &&& s3.outcome() == Ok::<ActionView, HandshakeError>(
                ActionView::Modify(init2rtr(SERVICE_LEVEL, PORT_NUM, q.qpn, q.psn, q.lid)),
            )
            &&& s4.outcome() == Ok::<ActionView, HandshakeError>(
                ActionView::Modify(rtr2rts(local.psn)),
            )
            &&& s5.outcome() == Ok::<ActionView, HandshakeError>(
                ActionView::Send(length_bytes(region.len)),
            )
            &&& s6.outcome() == Ok::<ActionView, HandshakeError>(ActionView::Receive(12))
            &&& s7.outcome() == Ok::<ActionView, HandshakeError>(ActionView::Done)
            &&& s7.qp == QpState::ReadyToSend
            &&& s7.peer == Some(q)
            &&& s7.remote is Some && s7.remote->0.addr == addr && s7.remote->0.rkey == rkey
        }),
{
    crate::connection::lemma_qp_info_roundtrip(q);
    crate::connection::lemma_addr_key_roundtrip(addr, rkey);
    assert(Seq::<u8>::empty() + qp_info_bytes(q) =~= qp_info_bytes(q));
    assert(Seq::<u8>::empty() + addr_key_bytes(addr, rkey) =~= addr_key_bytes(addr, rkey));
    let s0 = SessionState::initial(Role::WriteServer, QpState::Reset, local, Some(region));
    let s1 = s0.next(Event::Modified);
    let s2 = s1.next(Event::Sent);
    let s3 = s2.next(ev);
    let s4 = s3.next(Event::Modified);
    let s5 = s4.next(Event::Modified);
    let s6 = s5.next(Event::Sent);
    assert(s1.pc == 1 && s2.pc == 2);
    assert(s3.pc == 3);
    assert(s4.pc == 4);
    assert(s5.pc == 5);
    assert(s6.pc == 6);
}

/// The write client's handshake, walked from its start: after its own
/// transitions and the exchange of triples it asks for the server's 4 bytes.
/// Handed the length `len` as the server encoded it, it asks for a buffer of
/// that length, as it travels; told where the buffer was registered, it
/// writes exactly that address and key, and is done.
pub proof fn lemma_write_client_handshake(
    local: QpInfo,
    q: QpInfo,
    len: usize,
    addr: u64,
    rkey: u32,
    ev: Event,
    announced: Event,
)
    requires
        ev matches Event::Received(bytes) && bytes@ == qp_info_bytes(q),
        announced matches Event::Received(bytes) && bytes@ == length_bytes(len),
    ensures
        ({
            let s0 = SessionState::initial(Role::WriteClient, QpState::Reset, local, None);
            let s1 = s0.next(Event::Modified);
            let s2 = s1.next(Event::Sent);
            let s3 = s2.next(ev);
            let s4 = s3.next(Event::Modified);
            let s5 = s4.next(Event::Modified);
            let s6 = s5.next(announced);
            let s7 = s6.next(Event::Registered { addr, rkey });
            let s8 = s7.next(Event::Sent);
            &&& s0.wf()
            &&& s3.outcome() == Ok::<ActionView, HandshakeError>(
                ActionView::Modify(init2rtr(SERVICE_LEVEL, PORT_NUM, q.qpn, q.psn, q.lid)),
            )
            &&& s5.outcome() == Ok::<ActionView, HandshakeError>(ActionView::Receive(4))
            &&& s6.outcome() == Ok::<ActionView, HandshakeError>(
                ActionView::Register(wire_len(len) as usize),
            )
            &&& len <= u32::MAX ==> s6.outcome() == Ok::<ActionView, HandshakeError>(
                ActionView::Register(len),
            )
            &&& s7.outcome() == Ok::<ActionView, HandshakeError>(
                ActionView::Send(addr_key_bytes(addr, rkey)),
            )
            &&& s8.outcome() == Ok::<ActionView, HandshakeError>(ActionView::Done)
            &&& s8.qp == QpState::ReadyToSend
            &&& s8.peer == Some(q)
            &&& s8.region == Some(MemInfo { addr, len: wire_len(len) as usize, rkey })
        }),
{
    crate::connection::lemma_qp_info_roundtrip(q);
    crate::connection::lemma_length_roundtrip(len);
    assert(Seq::<u8>::empty() + qp_info_bytes(q) =~= qp_info_bytes(q));
    assert(Seq::<u8>::empty() + length_bytes(len) =~= length_bytes(len));
    let s0 = SessionState::initial(Role::WriteClient, QpState::Reset, local, None);
    let s1 = s0.next(Event::Modified);
    let s2 = s1.next(Event::Sent);
    let s3 = s2.next(ev);
    let s4 = s3.next(Event::Modified);
    let s5 = s4.next(Event::Modified);
    let s6 = s5.next(announced);
    let s7 = s6.next(Event::Registered { addr, rkey });
    assert(s1.pc == 1 && s2.pc == 2);
    assert(s3.pc == 3);
    assert(s4.pc == 4);
    assert(s5.pc == 5);
    assert(s6.pc == 6);
    assert(s7.pc == 7);
}

/// A handshake in progress.
#[derive(Debug)]
pub struct Session {
    role: Role,
    pc: usize,
    qp: IbvQp,
    local: QpInfo,
    region: Option<MemInfo>,
    peer: Option<QpInfo>,
    remote: Option<MemInfo>,
    announced: Option<usize>,
    reader: FrameReader,
    failure: Option<HandshakeError>,
}

impl View for Session {
    type V = SessionState;

    closed spec fn view(&self) -> SessionState {
        SessionState {
            role: self.role,
            pc: self.pc as nat,
            qp: self.qp.state(),
            local: self.local,
            region: self.region,
            peer: self.peer,
            remote: self.remote,
            announced: self.announced,
            gathered: self.reader@.data,
            failure: self.failure,
        }
    }
}

impl Session {
    /// What holds of every session: its state is well formed, and its reader
    /// is set up for the frame of the step in progress.
    pub closed spec fn wf(&self) -> bool {
        self@.wf() && self.repr()
    }

    /// How the fields hang together, also between the parts of one step.
    spec fn repr(&self) -> bool {
        &&& self.pc <= script(self.role).len()
        &&& self.reader@.wf()
        &&& self.reader@.need == frame_len(step_at(self.role, self.pc as nat))
        &&& self.local.qpn == self.qp.qpn()
    }

    /// A well-formed session is in a well-formed state.
    pub proof fn lemma_wf(&self)
        requires
            self.wf(),
        ensures
            self@.wf(),
    {
    }

    /// A session for `role` on a freshly created queue pair with number
    /// `qpn`, with the local sequence number `psn` and link identifier `lid`.
    /// A role that announces a buffer needs `region` and is refused without
    /// it; for the other roles it is ignored.
    pub fn new(role: Role, qpn: u32, psn: u32, lid: u16, region: Option<MemInfo>) -> (r: Result<
        Session,
        HandshakeError,
    >)
        ensures
            announces_region(role) && region is None ==> r == Err::<Session, HandshakeError>(
                HandshakeError::NoRegion,
            ),
            !(announces_region(role) && region is None) ==> (r matches Ok(s) && s.wf() && s@
                == SessionState::initial(
                role,
                QpState::Reset,
                QpInfo { qpn, psn, lid },
                if announces_region(role) {
                    region
                } else {
                    None
                },
            )),
    {
        let announces = match role {
            Role::Peer => true,
            Role::ReadServer => true,
            Role::WriteServer => true,
            _ => false,
        };
        if announces && region.is_none() {
            return Err(HandshakeError::NoRegion);
        }
        let local = QpInfo { qpn, psn, lid };
        let reader = FrameReader::new(step_frame_len(script_step(role, 0)));
        Ok(
            Session {
                role,
                pc: 0,
                qp: IbvQp::new(qpn),
                local,
                region: if announces {
                    region
                } else {
                    None
                },
                peer: None,
                remote: None,
                announced: None,
                reader,
                failure: None,
            },
        )
    }

    /// Like `new`, with a sequence number drawn at random. Whatever number
    /// is drawn, the session starts as `new` starts it with that number, and
    /// is refused on the same arguments.
    pub fn start(role: Role, qpn: u32, lid: u16, region: Option<MemInfo>) -> (r: Result<
        Session,
        HandshakeError,
    >)
        ensures
            announces_region(role) && region is None ==> r == Err::<Session, HandshakeError>(
                HandshakeError::NoRegion,
            ),
            !(announces_region(role) && region is None) ==> (r matches Ok(s) && s.wf() && s@
                == SessionState::initial(
                role,
                QpState::Reset,
                QpInfo { qpn, psn: s@.local.psn, lid },
                if announces_region(role) {
                    region
                } else {
                    None
                },
            )),
    {
        let psn = random_psn();
        Session::new(role, qpn, psn, lid, region)
    }

    /// The role this session plays.
    pub fn role(&self) -> (r: Role)
        ensures
            r == self@.role,
    {
        self.role
    }

    /// The local queue pair as the session has left it.
    pub fn qp(&self) -> (q: IbvQp)
        requires
            self.wf(),
        ensures
            q.state() == self@.qp,
            q.qpn() == self@.local.qpn,
    {
        self.qp
    }

    /// The local queue-pair triple.
    pub fn local(&self) -> (q: QpInfo)
        ensures
            q == self@.local,
    {
        self.local
    }

    /// The local buffer, once there is one.
    pub fn region(&self) -> (m: Option<MemInfo>)
        ensures
            m == self@.region,
    {
        self.region
    }

    /// The peer's queue-pair triple, once received.
    pub fn peer(&self) -> (q: Option<QpInfo>)
        ensures
            q == self@.peer,
    {
        self.peer
    }

    /// The peer's buffer, once known.
    pub fn remote(&self) -> (m: Option<MemInfo>)
        ensures
            m == self@.remote,
    {
        self.remote
    }

    /// Whether the handshake is complete.
    pub fn is_done(&self) -> (b: bool)
        ensures
            b == (self@.outcome() == Ok::<ActionView, HandshakeError>(ActionView::Done)),
    {
        self.failure.is_none() && script_step(self.role, self.pc).is_none()
    }

    /// What the caller is to do now, or the error that ended the handshake.
    pub fn pending(&self) -> (r: Result<Action, HandshakeError>)
        requires
            self.wf(),
        ensures
            match r {
                Ok(a) => self@.outcome() == Ok::<ActionView, HandshakeError>(a@),
                Err(e) => self@.outcome() == Err::<ActionView, HandshakeError>(e),
            },
    {
        if let Some(e) = self.failure {
            return Err(e);
        }
        let mut qp = self.qp;
        match script_step(self.role, self.pc) {
            None => Ok(Action::Done),
            Some(Step::ToInit) => match qp.modify_reset2init(PORT_NUM) {
                Ok(t) => Ok(Action::Modify(t)),
                Err(e) => Err(HandshakeError::Qp(e)),
            },
            Some(Step::ToReadyToReceive) => match self.peer {
                None => Err(HandshakeError::Unprepared),
                Some(p) => match qp.modify_init2rtr(SERVICE_LEVEL, PORT_NUM, p.qpn, p.psn, p.lid) {
                    Ok(t) => Ok(Action::Modify(t)),
                    Err(e) => Err(HandshakeError::Qp(e)),
                },
            },
            Some(Step::ToReadyToSend) => match qp.modify_rtr2rts(self.local.psn) {
                Ok(t) => Ok(Action::Modify(t)),
                Err(e) => Err(HandshakeError::Qp(e)),
            },
            Some(Step::SendQpInfo) => Ok(Action::Send(encode_qp_info(&self.local))),
            Some(Step::SendMemInfo) => match self.region {
                None => Err(HandshakeError::Unprepared),
                Some(m) => Ok(Action::Send(encode_mem_info(&m))),
            },
            Some(Step::SendLength) => match self.region {
                None => Err(HandshakeError::Unprepared),
                Some(m) => Ok(Action::Send(encode_length(m.len))),
            },
            Some(Step::SendAddrKey) => match self.region {
                None => Err(HandshakeError::Unprepared),
                Some(m) => Ok(Action::Send(encode_addr_key(m.addr, m.rkey))),
            },
            Some(Step::Register) => match self.announced {
                None => Err(HandshakeError::Unprepared),
                Some(len) => Ok(Action::Register(len)),
            },
            Some(_) => Ok(Action::Receive(self.reader.remaining())),
        }
    }

    /// Moves on to the next step of the script.
    fn advance(&mut self)
        requires
            old(self).repr(),
            old(self).pc < script(old(self).role).len(),
        ensures
            final(self).repr(),
            final(self)@ == old(self)@.advanced(),
    {
        self.pc = self.pc + 1;
        self.reader = FrameReader::new(step_frame_len(script_step(self.role, self.pc)));
    }

    /// Ends the session with `e`.
    fn fail(&mut self, e: HandshakeError)
        requires
            old(self).repr(),
        ensures
            final(self).repr(),
            final(self)@ == old(self)@.failed(e),
    {
        self.failure = Some(e);
    }

    /// Decodes the frame of the step in progress, which is complete.
    fn absorb(&mut self)
        requires
            old(self).repr(),
            old(self)@.frame().complete(),
        ensures
            final(self).repr(),
            final(self)@ == old(self)@.absorbed(old(self)@.gathered),
    {
        let data = self.reader.bytes();
        match script_step(self.role, self.pc) {
            Some(Step::RecvQpInfo) => {
                proof {
                    assert(data@.subrange(0, 0 + QP_INFO_LEN) =~= data@);
                }
                self.peer = Some(get_qp_info(data, 0));
            },
            Some(Step::RecvMemInfo) => {
                proof {
                    assert(data@.subrange(0, 0 + MEM_INFO_LEN) =~= data@);
                }
                self.remote = Some(get_mem_info(data, 0));
            },
            Some(Step::RecvQpAndMemInfo) => {
                let q = get_qp_info(data, 0);
                let m = get_mem_info(data, QP_INFO_LEN);
                self.peer = Some(q);
                self.remote = Some(m);
            },
            Some(Step::RecvLength) => {
                match decode_length(data) {
                    Some(len) => {
                        self.announced = Some(len);
                    },
                    None => {},
                }
            },
            Some(Step::RecvAddrKey) => {
                match decode_addr_key(data) {
                    Some((addr, rkey)) => {
                        let len: usize = match self.region {
                            Some(m) => (m.len as u64 % 0x1_0000_0000) as usize,
                            None => 0,
                        };
                        self.remote = Some(MemInfo { addr, len, rkey });
                    },
                    None => {},
                }
            },
            _ => {},
        }
    }

    /// Takes in what happened and says what to do next. The new state is
    /// `next` of the old one; the answer is the action pending in it, or the
    /// error that ended the handshake, now or earlier.
    pub fn step(&mut self, ev: Event) -> (r: Result<Action, HandshakeError>)
        requires
            old(self).wf(),
        ensures
            final(self).wf(),
            final(self)@ == old(self)@.next(ev),
            match r {
                Ok(a) => final(self)@.outcome() == Ok::<ActionView, HandshakeError>(a@),
                Err(e) => final(self)@.outcome() == Err::<ActionView, HandshakeError>(e),
            },
    {
        proof {
            lemma_next_wf(old(self)@, ev);
        }
        match self.pending() {
            Err(e) => {
                self.fail(e);
            },
            Ok(action) => {
                match ev {
                    Event::Failed => {
                        self.fail(HandshakeError::Failed);
                    },
                    Event::Modified => match action {
                        Action::Modify(t) => {
                            let _ = self.qp.modify(t);
                            self.advance();
                        },
                        _ => {
                            self.fail(HandshakeError::UnexpectedEvent);
                        },
                    },
                    Event::Sent => match action {
                        Action::Send(_) => {
                            self.advance();
                        },
                        _ => {
                            self.fail(HandshakeError::UnexpectedEvent);
                        },
                    },
                    Event::Received(bytes) => match action {
                        Action::Receive(_) => {
                            match self.reader.feed(bytes.as_slice()) {
                                Err(e) => {
                                    self.fail(HandshakeError::Frame(e));
                                },
                                Ok(complete) => {
                                    if complete {
                                        self.absorb();
                                        self.advance();
                                    }
                                },
                            }
                        },
                        _ => {
                            self.fail(HandshakeError::UnexpectedEvent);
                        },
                    },
                    Event::Registered { addr, rkey } => match action {
                        Action::Register(len) => {
                            self.region = Some(MemInfo { addr, len, rkey });
                            self.advance();
                        },
                        _ => {
                            self.fail(HandshakeError::UnexpectedEvent);
                        },
                    },
                }
            },
        }
        self.pending()
    }
}

} // verus!
