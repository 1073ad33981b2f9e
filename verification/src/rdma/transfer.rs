//! The credit-bounded transfer engine.
//!
//! A transfer moves `total` bytes between a local and a remote registered
//! region in requests of `chunk` bytes, the last of which may be shorter. At
//! most `depth` requests are in flight at any time: when the window is full
//! the engine asks for a poll of the completion queue before it hands out the
//! next request, and when everything has been submitted it keeps asking for
//! polls until nothing is in flight. A window that is not positive is no
//! window: then everything is submitted before the first poll.
//!
//! The engine decides and the caller acts. `pending` says what to do next;
//! `step` takes what happened and moves on.
//!
//! Signaling policy: a request asks for a completion when it fills the credit
//! window, and the final request does so whenever it is shorter than a chunk.

use crate::connection::MemInfo;
use crate::rdma::verbs::{
    check_completion, completion_ok, one_sided, post_read, post_write, IbvMr, IbvQp, QpState,
    WorkCompletion, WorkRequest, WrOpcode,
};
use vstd::prelude::*;

verus! {

/// Number of requests that move `total` bytes in chunks of `chunk`: the
/// quotient rounded up.
pub open spec fn chunk_count(total: nat, chunk: nat) -> nat
    recommends
        chunk > 0,
{
    ((total + chunk - 1) / (chunk as int)) as nat
}

/// Offset at which request `i` starts. Beyond the last request this is
/// `total`.
pub open spec fn chunk_start(total: nat, chunk: nat, i: nat) -> nat {
    if i * chunk <= total {
        i * chunk
    } else {
        total
    }
}

/// Number of bytes that request `i` carries. Beyond the last request this is
/// zero.
pub open spec fn chunk_len(total: nat, chunk: nat, i: nat) -> nat {
    (chunk_start(total, chunk, i + 1) - chunk_start(total, chunk, i)) as nat
}

/// The requests tile the buffer: there are `ceil(total / chunk)` of them,
/// each starts where the one before it ended, the first starts at 0 and the
/// last ends at `total`; every request but the last carries `chunk` bytes,
/// and the last carries `total mod chunk` bytes, or `chunk` when that is 0.
pub proof fn lemma_chunking(total: nat, chunk: nat)
    requires
        chunk > 0,
    ensures
        total == 0 <==> chunk_count(total, chunk) == 0,
        chunk_count(total, chunk) * chunk >= total,
        total > 0 ==> (chunk_count(total, chunk) - 1) * chunk < total,
        chunk_start(total, chunk, 0) == 0,
        chunk_start(total, chunk, chunk_count(total, chunk)) == total,
        forall|i: nat|
            chunk_start(total, chunk, i) + #[trigger] chunk_len(total, chunk, i) == chunk_start(
                total,
                chunk,
                i + 1,
            ),
        forall|i: nat|
            i + 1 < chunk_count(total, chunk) ==> #[trigger] chunk_len(total, chunk, i) == chunk,
        forall|i: nat|
            i >= chunk_count(total, chunk) ==> #[trigger] chunk_len(total, chunk, i) == 0,
        total > 0 ==> chunk_len(total, chunk, (chunk_count(total, chunk) - 1) as nat) == (if total
            % chunk == 0 {
            chunk
        } else {
            total % chunk
        }),
{
    let n = chunk_count(total, chunk);
    let x = (total + chunk - 1) as int;
    let d = chunk as int;
    vstd::arithmetic::div_mod::lemma_fundamental_div_mod(x, d);
    vstd::arithmetic::div_mod::lemma_mod_bound(x, d);
    vstd::arithmetic::div_mod::lemma_div_pos_is_pos(x, d);
    assert(n == x / d);
    assert(d * n == n * chunk) by (nonlinear_arith)
        requires
            d == chunk,
    ;
    assert(n * chunk >= total);
    assert((n - 1) * chunk == n * chunk - chunk) by (nonlinear_arith);
    if total == 0 {
        assert(n == 0) by (nonlinear_arith)
            requires
                n * chunk <= chunk - 1,
                chunk > 0,
        ;
    } else {
        assert(n > 0) by (nonlinear_arith)
            requires
                n * chunk >= total,
                total > 0,
        ;
    }
    assert forall|i: nat|
        chunk_start(total, chunk, i) + #[trigger] chunk_len(total, chunk, i) == chunk_start(
            total,
            chunk,
            i + 1,
        ) by {
        assert((i + 1) * chunk == i * chunk + chunk) by (nonlinear_arith);
    }
    assert forall|i: nat|
        i + 1 < n implies #[trigger] chunk_len(total, chunk, i) == chunk by {
        lemma_start_before_last(total, chunk, i + 1);
        assert((i + 1) * chunk == i * chunk + chunk) by (nonlinear_arith);
    }
    assert forall|i: nat| i >= n implies #[trigger] chunk_len(total, chunk, i) == 0 by {
        lemma_start_from_count(total, chunk, i);
        lemma_start_from_count(total, chunk, i + 1);
    }
    lemma_start_from_count(total, chunk, n);
    assert(0 * chunk == 0) by (nonlinear_arith);
    if total > 0 {
        let last = (n - 1) as nat;
        lemma_start_before_last(total, chunk, last);
        vstd::arithmetic::div_mod::lemma_fundamental_div_mod(total as int, d);
        vstd::arithmetic::div_mod::lemma_mod_bound(total as int, d);
        let q = total as int / d;
        let r = total as int % d;
        assert(d * q == q * chunk) by (nonlinear_arith)
            requires
                d == chunk,
        ;
        if r == 0 {
            // total = q * chunk, and (n - 1) * chunk < q * chunk <= n * chunk
            assert(q == n) by (nonlinear_arith)
                requires
                    (n - 1) * chunk < q * chunk,
                    q * chunk <= n * chunk,
                    chunk > 0,
            ;
        } else {
            // q * chunk < total <= n * chunk and (n - 1) * chunk < total < (q + 1) * chunk
            assert((q + 1) * chunk == q * chunk + chunk) by (nonlinear_arith);
            assert(q == n - 1) by (nonlinear_arith)
                requires
                    q * chunk < n * chunk,
                    (n - 1) * chunk < (q + 1) * chunk,
                    chunk > 0,
            ;
        }
    }
}

/// A request index below the count starts strictly inside the buffer, at
/// `i * chunk`.
pub proof fn lemma_start_before_last(total: nat, chunk: nat, i: nat)
    requires
        chunk > 0,
        i < chunk_count(total, chunk),
    ensures
        i * chunk < total,
        chunk_start(total, chunk, i) == i * chunk,
{
    let n = chunk_count(total, chunk);
    let x = (total + chunk - 1) as int;
    let d = chunk as int;
    vstd::arithmetic::div_mod::lemma_fundamental_div_mod(x, d);
    vstd::arithmetic::div_mod::lemma_mod_bound(x, d);
    vstd::arithmetic::div_mod::lemma_div_pos_is_pos(x, d);
    assert(d * n == n * chunk) by (nonlinear_arith)
        requires
            d == chunk,
    ;
    assert(i * chunk <= (n - 1) * chunk) by (nonlinear_arith)
        requires
            i <= n - 1,
            chunk > 0,
    ;
    assert((n - 1) * chunk == n * chunk - chunk) by (nonlinear_arith);
}

/// A request index at or beyond the count starts at the end of the buffer.
pub proof fn lemma_start_from_count(total: nat, chunk: nat, i: nat)
    requires
        chunk > 0,
        i >= chunk_count(total, chunk),
    ensures
        i * chunk >= total,
        chunk_start(total, chunk, i) == total,
{
    let n = chunk_count(total, chunk);
    let x = (total + chunk - 1) as int;
    let d = chunk as int;
    vstd::arithmetic::div_mod::lemma_fundamental_div_mod(x, d);
    vstd::arithmetic::div_mod::lemma_mod_bound(x, d);
    vstd::arithmetic::div_mod::lemma_div_pos_is_pos(x, d);
    assert(d * n == n * chunk) by (nonlinear_arith)
        requires
            d == chunk,
    ;
    assert(i * chunk >= n * chunk) by (nonlinear_arith)
        requires
            i >= n,
            chunk > 0,
    ;
}

/// What a transfer moves, and how.
#[derive(Debug, Clone, Copy, PartialEq, Eq, Structural)]
pub struct TransferPlan {
    /// `RdmaRead` or `RdmaWrite`.
    pub opcode: WrOpcode,
    /// The local registered region; the transfer uses its first `total` bytes.
    pub local: IbvMr,
    /// The peer's region; the transfer uses its first `total` bytes.
    pub remote: MemInfo,
    /// Bytes to move.
    pub total: usize,
    /// Bytes per request.
    pub chunk: usize,
    /// Credit window: the largest number of requests in flight. Zero stands
    /// for no window: nothing is polled before everything is submitted.
    pub depth: usize,
}

/// Why a transfer cannot start or cannot go on. Every one of these is final.
#[derive(Debug, Clone, Copy, PartialEq, Eq, Structural)]
pub enum TransferError {
    /// The queue pair has not reached READY-TO-SEND.
    NotReady { state: QpState },
    /// The operation is neither a read nor a write.
    NotOneSided,
    /// The chunk size is zero.
    ZeroChunk,
    /// The local region is shorter than the transfer.
    LocalTooSmall,
    /// The remote region is shorter than the transfer.
    RemoteTooSmall,
    /// A completion reported a failure or echoed another operation.
    BadCompletion(WorkCompletion),
    /// A poll returned more completions than there were requests in flight.
    Overrun,
    /// The event does not answer the action that was pending.
    UnexpectedEvent,
    /// The handshake that was to ready the queue pair has not completed.
    NotConnected,
}

/// What the engine asks its caller to do.
#[derive(Debug, Clone, Copy, PartialEq, Eq)]
pub enum TransferAction {
    /// Submit this request, then report `Posted`.
    Post(WorkRequest),
    /// Poll the completion queue once, without blocking, then report
    /// `Polled` with whatever it returned.
    Poll,
    /// Everything was submitted and nothing is in flight.
    Done,
}

/// What the caller reports back.
#[derive(Debug, PartialEq, Eq)]
pub enum TransferEvent {
    /// The request of the pending `Post` was submitted.
    Posted,
    /// The poll of the pending `Poll` returned these completions, possibly
    /// none.
    Polled(Vec<WorkCompletion>),
}

/// The first completion in `cs` that is not good for `op`, if any.
pub open spec fn first_bad(cs: Seq<WorkCompletion>, op: WrOpcode) -> Option<WorkCompletion>
    decreases cs.len(),
{
    if cs.len() == 0 {
        None
    } else if !completion_ok(cs[0], op) {
        Some(cs[0])
    } else {
        first_bad(cs.skip(1), op)
    }
}

/// The plan that `Transfer::new` draws up from its arguments. A window that
/// is not positive is no window, and counts as zero.
pub open spec fn plan_of(
    opcode: WrOpcode,
    local: IbvMr,
    remote: MemInfo,
    total: usize,
    chunk: usize,
    max_cqe: i32,
) -> TransferPlan {
    TransferPlan {
        opcode,
        local,
        remote,
        total,
        chunk,
        depth: if max_cqe > 0 {
            max_cqe as usize
        } else {
            0
        },
    }
}

impl TransferPlan {
    /// The first thing wrong with the plan, if anything is.
    pub open spec fn defect(self) -> Option<TransferError> {
        if self.opcode != WrOpcode::RdmaRead && self.opcode != WrOpcode::RdmaWrite {
            Some(TransferError::NotOneSided)
        } else if self.chunk == 0 {
            Some(TransferError::ZeroChunk)
        } else if self.total > self.local.len {
            Some(TransferError::LocalTooSmall)
        } else if self.total > self.remote.len {
            Some(TransferError::RemoteTooSmall)
        } else {
            None
        }
    }

    /// Number of requests the plan calls for.
    pub open spec fn count(self) -> nat {
        chunk_count(self.total as nat, self.chunk as nat)
    }

    /// Offset at which request `i` starts.
    pub open spec fn start(self, i: nat) -> nat {
        chunk_start(self.total as nat, self.chunk as nat, i)
    }

    /// Number of bytes request `i` carries.
    pub open spec fn len(self, i: nat) -> nat {
        chunk_len(self.total as nat, self.chunk as nat, i)
    }

    /// Whether the window is full with `in_flight` requests unacknowledged.
    pub open spec fn window_full(self, in_flight: nat) -> bool {
        self.depth > 0 && in_flight >= self.depth
    }

    /// Request `i`, submitted while `in_flight` earlier requests are
    /// unacknowledged. It covers the same span of both regions, carries its
    /// index as correlation id, and is signaled when it fills the window or
    /// is shorter than a chunk. Addresses are the region's base plus the
    /// offset, in 64-bit arithmetic.
    pub open spec fn request(self, i: nat, in_flight: nat) -> WorkRequest {
        one_sided(
            self.opcode,
            self.local.addr.wrapping_add(self.start(i) as u64),
            self.len(i) as usize,
            self.remote.addr.wrapping_add(self.start(i) as u64),
            self.remote.rkey,
            self.local.lkey,
            i as u64,
            in_flight + 1 == self.depth || self.len(i) < self.chunk,
        )
    }
}

/// The abstract state of a transfer.
pub struct TransferState {
    pub plan: TransferPlan,
    /// Requests submitted so far.
    pub posted: nat,
    /// Requests submitted and not yet acknowledged.
    pub in_flight: nat,
    /// The error that ended the transfer, if one did.
    pub failure: Option<TransferError>,
}

impl TransferState {
    /// The state before anything was submitted.
    pub open spec fn initial(plan: TransferPlan) -> TransferState {
        TransferState { plan, posted: 0, in_flight: 0, failure: None }
    }

    /// How a transfer starts on a queue pair in state `qp`: refused unless
    /// the pair is in READY-TO-SEND, refused for the first defect of the
    /// plan, and otherwise in the initial state.
    pub open spec fn start(qp: QpState, plan: TransferPlan) -> Result<
        TransferState,
        TransferError,
    > {
        if qp != QpState::ReadyToSend {
            Err(TransferError::NotReady { state: qp })
        } else {
            match plan.defect() {
                Some(d) => Err(d),
                None => Ok(TransferState::initial(plan)),
            }
        }
    }

    /// What holds of every state the engine can be in: the plan is sound, no
    /// more requests are in flight than the window allows, none is in flight
    /// that was not submitted, and no more were submitted than the plan calls
    /// for.
    pub open spec fn wf(self) -> bool {
        &&& self.plan.defect() is None
        &&& self.plan.depth > 0 ==> self.in_flight <= self.plan.depth
        &&& self.in_flight <= self.posted
        &&& self.posted <= self.plan.count()
    }

    /// What to do in this state, failure aside: poll when the window is full,
    /// else submit the next request if one is left, else poll until nothing
    /// is in flight.
    pub open spec fn action(self) -> TransferAction {
        if self.plan.window_full(self.in_flight) {
            TransferAction::Poll
        } else if self.posted < self.plan.count() {
            TransferAction::Post(self.plan.request(self.posted, self.in_flight))
        } else if self.in_flight > 0 {
            TransferAction::Poll
        } else {
            TransferAction::Done
        }
    }

    /// What the engine answers in this state: the error once it has failed,
    /// the action otherwise.
    pub open spec fn outcome(self) -> Result<TransferAction, TransferError> {
        match self.failure {
            Some(e) => Err(e),
            None => Ok(self.action()),
        }
    }

    /// This state, ended by `e`.
    pub open spec fn failed(self, e: TransferError) -> TransferState {
        TransferState { failure: Some(e), ..self }
    }

    /// The state after `ev`. A failed transfer stays as it is. `Posted`
    /// answers a pending `Post` and puts one more request in flight. `Polled`
    /// answers a pending `Poll`: every completion must be good for the plan's
    /// operation, there may not be more of them than requests in flight, and
    /// each takes one request out of flight. Anything else ends the transfer.
    pub open spec fn next(self, ev: TransferEvent) -> TransferState {
        if self.failure is Some {
            self
        } else {
            match (self.action(), ev) {
                (TransferAction::Post(_), TransferEvent::Posted) => TransferState {
                    posted: self.posted + 1,
                    in_flight: self.in_flight + 1,
                    ..self
                },
                (TransferAction::Poll, TransferEvent::Polled(cs)) => match first_bad(
                    cs@,
                    self.plan.opcode,
                ) {
                    Some(wc) => self.failed(TransferError::BadCompletion(wc)),
                    None => if cs@.len() > self.in_flight {
                        self.failed(TransferError::Overrun)
                    } else {
                        TransferState { in_flight: (self.in_flight - cs@.len()) as nat, ..self }
                    },
                },
                _ => self.failed(TransferError::UnexpectedEvent),
            }
        }
    }
}

/// The credit window holds in every state: whatever is reported, a
/// well-formed state is followed by a well-formed one, in which, for a
/// window of at least one, no more than `depth` requests are in flight.
pub proof fn lemma_window_holds(s: TransferState, ev: TransferEvent)
    requires
        s.wf(),
    ensures
        s.next(ev).wf(),
        s.plan.depth >= 1 ==> s.next(ev).in_flight <= s.plan.depth,
        s.next(ev).plan == s.plan,
{
}

impl TransferState {
    /// The state after the events `evs`, taken in one after the other.
    pub open spec fn after(self, evs: Seq<TransferEvent>) -> TransferState
        decreases evs.len(),
    {
        if evs.len() == 0 {
            self
        } else {
            self.next(evs[0]).after(evs.skip(1))
        }
    }
}

/// The credit window holds throughout: for every window of at least one,
/// from the start of a plan that `Transfer::new` accepts, and whatever is
/// reported in whatever order, no more than `depth` requests are ever in
/// flight. With or without a window, no more are submitted than the plan
/// calls for.
pub proof fn lemma_window_holds_throughout(plan: TransferPlan, evs: Seq<TransferEvent>)
    requires
        plan.defect() is None,
    ensures
        TransferState::initial(plan).after(evs).wf(),
        plan.depth >= 1 ==> TransferState::initial(plan).after(evs).in_flight <= plan.depth,
        TransferState::initial(plan).after(evs).posted <= plan.count(),
        TransferState::initial(plan).after(evs).plan == plan,
{
    lemma_after_wf(TransferState::initial(plan), evs);
}

/// A run of events takes a well-formed state to a well-formed state of the
/// same plan.
pub proof fn lemma_after_wf(s: TransferState, evs: Seq<TransferEvent>)
    requires
        s.wf(),
    ensures
        s.after(evs).wf(),
        s.after(evs).plan == s.plan,
    decreases evs.len(),
{
    if evs.len() > 0 {
        lemma_window_holds(s, evs[0]);
        lemma_after_wf(s.next(evs[0]), evs.skip(1));
    }
}

/// A transfer that has run to its end has submitted every request of its
/// plan, the quotient of length and chunk size rounded up, and nothing is in
/// flight any more.
pub proof fn lemma_completed_run(plan: TransferPlan, evs: Seq<TransferEvent>)
    requires
        plan.defect() is None,
        TransferState::initial(plan).after(evs).outcome() == Ok::<
            TransferAction,
            TransferError,
        >(TransferAction::Done),
    ensures
        TransferState::initial(plan).after(evs).posted == chunk_count(
            plan.total as nat,
            plan.chunk as nat,
        ),
        TransferState::initial(plan).after(evs).in_flight == 0,
{
    lemma_after_wf(TransferState::initial(plan), evs);
    lemma_done(TransferState::initial(plan).after(evs));
}

/// The engine reports `Done` exactly when every request of the plan was
/// submitted and none is in flight; in particular a transfer of zero bytes is
/// done before anything is submitted or polled.
pub proof fn lemma_done(s: TransferState)
    requires
        s.wf(),
    ensures
        s.action() == TransferAction::Done <==> s.posted == s.plan.count() && s.in_flight == 0,
        s.plan.total == 0 ==> TransferState::initial(s.plan).action() == TransferAction::Done,
{
    lemma_chunking(s.plan.total as nat, s.plan.chunk as nat);
}

/// What request `i` of a plan is, for every chunk size above zero and every
/// index below the count: it carries the plan's operation, its index as
/// correlation id and the two keys; it starts `i` chunks into the buffer and
/// carries a whole chunk, or what is left of the buffer if that is less, and
/// never nothing. Where a region does not run past the end of the address
/// space, the request lies in its first `total` bytes, at the same offset in
/// both.
pub proof fn lemma_request(plan: TransferPlan, i: nat, in_flight: nat)
    requires
        plan.chunk > 0,
        i < plan.count(),
    ensures
        ({
            let wr = plan.request(i, in_flight);
            &&& wr.wr_id == i
            &&& wr.opcode == plan.opcode
            &&& wr.sge.lkey == plan.local.lkey
            &&& wr.remote is Some
            &&& wr.remote->0.rkey == plan.remote.rkey
            &&& plan.start(i) == i * plan.chunk
            &&& plan.start(i) < plan.total
            &&& wr.sge.length == plan.len(i)
            &&& 0 < wr.sge.length <= plan.chunk
            &&& plan.start(i) + wr.sge.length <= plan.total
            &&& wr.sge.length == (if plan.start(i) + plan.chunk <= plan.total {
                plan.chunk as int
            } else {
                plan.total - plan.start(i)
            })
            &&& plan.local.addr + plan.total <= u64::MAX ==> wr.sge.addr == plan.local.addr
                + plan.start(i)
            &&& plan.remote.addr + plan.total <= u64::MAX ==> wr.remote->0.addr
                == plan.remote.addr + plan.start(i)
        }),
{
    let total = plan.total as nat;
    let chunk = plan.chunk as nat;
    lemma_chunking(total, chunk);
    lemma_start_before_last(total, chunk, i);
    assert((i + 1) * chunk == i * chunk + chunk) by (nonlinear_arith);
    assert(i <= total) by (nonlinear_arith)
        requires
            i * chunk < total,
            chunk > 0,
    ;
}

/// A transfer in progress.
#[derive(Debug)]
pub struct Transfer {
    plan: TransferPlan,
    qp: IbvQp,
    posted: usize,
    offset: usize,
    in_flight: usize,
    failure: Option<TransferError>,
}

impl View for Transfer {
    type V = TransferState;

    closed spec fn view(&self) -> TransferState {
        TransferState {
            plan: self.plan,
            posted: self.posted as nat,
            in_flight: self.in_flight as nat,
            failure: self.failure,
        }
    }
}

impl Transfer {
    #[verifier::type_invariant]
    spec fn inv(self) -> bool {
        &&& self@.wf()
        &&& self.qp.state() == QpState::ReadyToSend
        &&& self.offset == self.plan.start(self.posted as nat)
    }

    /// Plans the transfer of `total` bytes between the start of `local` and
    /// the start of `remote`, in requests of `chunk` bytes, with at most
    /// `max_cqe` of them in flight. Refused when the queue pair is not in
    /// READY-TO-SEND, and otherwise for the first defect of the plan.
    pub fn new(
        opcode: WrOpcode,
        qp: &IbvQp,
        local: IbvMr,
        remote: MemInfo,
        total: usize,
        chunk: usize,
        max_cqe: i32,
    ) -> (r: Result<Transfer, TransferError>)
        ensures
            match r {
                Ok(t) => Ok::<TransferState, TransferError>(t@) == TransferState::start(
                    qp.state(),
                    plan_of(opcode, local, remote, total, chunk, max_cqe),
                ) && t@.wf(),
                Err(e) => Err::<TransferState, TransferError>(e) == TransferState::start(
                    qp.state(),
                    plan_of(opcode, local, remote, total, chunk, max_cqe),
                ),
            },
    {
        if !qp.can_post() {
            return Err(TransferError::NotReady { state: qp.get_state() });
        }
        let one_sided = match opcode {
            WrOpcode::RdmaRead => true,
            WrOpcode::RdmaWrite => true,
            _ => false,
        };
        if !one_sided {
            return Err(TransferError::NotOneSided);
        }
        if chunk == 0 {
            return Err(TransferError::ZeroChunk);
        }
        if total > local.len {
            return Err(TransferError::LocalTooSmall);
        }
        if total > remote.len {
            return Err(TransferError::RemoteTooSmall);
        }
        let depth: usize = if max_cqe > 0 {
            max_cqe as usize
        } else {
            0
        };
        let plan = TransferPlan { opcode, local, remote, total, chunk, depth };
        proof {
            assert(0 * (chunk as nat) == 0) by (nonlinear_arith);
        }
        Ok(Transfer { plan, qp: *qp, posted: 0, offset: 0, in_flight: 0, failure: None })
    }

    /// The plan this transfer follows.
    pub fn plan(&self) -> (p: TransferPlan)
        ensures
            p == self@.plan,
    {
        self.plan
    }

    /// Number of requests submitted so far.
    pub fn posted(&self) -> (n: usize)
        ensures
            n == self@.posted,
            n <= self@.plan.count(),
    {
        proof {
            use_type_invariant(self);
        }
        self.posted
    }

    /// Number of requests submitted and not yet acknowledged. Never more than
    /// a credit window of at least one.
    pub fn in_flight(&self) -> (n: usize)
        ensures
            n == self@.in_flight,
            self@.plan.depth >= 1 ==> n <= self@.plan.depth,
    {
        proof {
            use_type_invariant(self);
        }
        self.in_flight
    }

    /// What the caller is to do now, or the error that ended the transfer.
    pub fn pending(&self) -> (r: Result<TransferAction, TransferError>)
        ensures
            r == self@.outcome(),
            self@.wf(),
    {
        proof {
            use_type_invariant(self);
        }
        if let Some(e) = self.failure {
            return Err(e);
        }
        if self.plan.depth > 0 && self.in_flight >= self.plan.depth {
            return Ok(TransferAction::Poll);
        }
        let ghost total = self.plan.total as nat;
        let ghost chunk = self.plan.chunk as nat;
        let ghost i = self.posted as nat;
        proof {
            lemma_chunking(total, chunk);
            if i < self.plan.count() {
                lemma_start_before_last(total, chunk, i);
                assert(i < total) by (nonlinear_arith)
                    requires
                        i * chunk < total,
                        chunk > 0,
                ;
            } else {
                lemma_start_from_count(total, chunk, i);
            }
            assert((i + 1) * chunk == i * chunk + chunk) by (nonlinear_arith);
        }
        if self.offset < self.plan.total {
            let remaining: usize = self.plan.total - self.offset;
            let len: usize = if remaining < self.plan.chunk {
                remaining
            } else {
                self.plan.chunk
            };
            let signaled = self.in_flight + 1 == self.plan.depth || len < self.plan.chunk;
            let local_addr: u64 = self.plan.local.addr.wrapping_add(self.offset as u64);
            let remote_addr: u64 = self.plan.remote.addr.wrapping_add(self.offset as u64);
            let built = match self.plan.opcode {
                WrOpcode::RdmaRead => post_read(
                    local_addr,
                    len,
                    remote_addr,
                    self.plan.remote.rkey,
                    &self.qp,
                    &self.plan.local,
                    self.posted as u64,
                    signaled,
                ),
                _ => post_write(
                    local_addr,
                    len,
                    remote_addr,
                    self.plan.remote.rkey,
                    &self.qp,
                    &self.plan.local,
                    self.posted as u64,
                    signaled,
                ),
            };
            match built {
                Ok(wr) => Ok(TransferAction::Post(wr)),
                Err(_) => Err(TransferError::NotReady { state: self.qp.get_state() }),
            }
        } else if self.in_flight > 0 {
            Ok(TransferAction::Poll)
        } else {
            Ok(TransferAction::Done)
        }
    }

    /// Takes in what happened and says what to do next. The new state is
    /// `next` of the old one; the answer is the action pending in it, or the
    /// error that ended the transfer, now or earlier.
    pub fn step(&mut self, ev: TransferEvent) -> (r: Result<TransferAction, TransferError>)
        ensures
            final(self)@ == old(self)@.next(ev),
            r == final(self)@.outcome(),
            final(self)@.wf(),
    {
        proof {
            use_type_invariant(&*self);
        }
        let ghost total = self.plan.total as nat;
        let ghost chunk = self.plan.chunk as nat;
        let ghost i = self.posted as nat;
        proof {
            lemma_chunking(total, chunk);
            if i < self.plan.count() {
                lemma_start_before_last(total, chunk, i);
                assert(i < total) by (nonlinear_arith)
                    requires
                        i * chunk < total,
                        chunk > 0,
                ;
            } else {
                lemma_start_from_count(total, chunk, i);
            }
            assert((i + 1) * chunk == i * chunk + chunk) by (nonlinear_arith);
        }
        if self.failure.is_some() {
            return self.pending();
        }
        let window_full = self.plan.depth > 0 && self.in_flight >= self.plan.depth;
        let more = self.offset < self.plan.total;
        match ev {
            TransferEvent::Posted => {
                if !window_full && more {
                    let remaining: usize = self.plan.total - self.offset;
                    let len: usize = if remaining < self.plan.chunk {
                        remaining
                    } else {
                        self.plan.chunk
                    };
                    proof {
                        lemma_window_holds(old(self)@, ev);
                    }
                    *self = Transfer {
                        plan: self.plan,
                        qp: self.qp,
                        posted: self.posted + 1,
                        offset: self.offset + len,
                        in_flight: self.in_flight + 1,
                        failure: None,
                    };
                } else {
                    self.abort(TransferError::UnexpectedEvent);
                }
            },
            TransferEvent::Polled(cs) => {
                if window_full || (!more && self.in_flight > 0) {
                    match find_bad(&cs, self.plan.opcode) {
                        Some(wc) => {
                            self.abort(TransferError::BadCompletion(wc));
                        },
                        None => {
                            if cs.len() > self.in_flight {
                                self.abort(TransferError::Overrun);
                            } else {
                                *self = Transfer {
                                    plan: self.plan,
                                    qp: self.qp,
                                    posted: self.posted,
                                    offset: self.offset,
                                    in_flight: self.in_flight - cs.len(),
                                    failure: None,
                                };
                            }
                        },
                    }
                } else {
                    self.abort(TransferError::UnexpectedEvent);
                }
            },
        }
        self.pending()
    }

    /// Ends the transfer with `e`.
    fn abort(&mut self, e: TransferError)
        ensures
            final(self)@ == old(self)@.failed(e),
    {
        proof {
            use_type_invariant(&*self);
        }
        *self = Transfer {
            plan: self.plan,
            qp: self.qp,
            posted: self.posted,
            offset: self.offset,
            in_flight: self.in_flight,
            failure: Some(e),
        };
    }
}

/// Finds the first completion that is not good for `op`.
fn find_bad(cs: &Vec<WorkCompletion>, op: WrOpcode) -> (r: Option<WorkCompletion>)
    ensures
        r == first_bad(cs@, op),
{
    let mut i: usize = 0;
    proof {
        assert(cs@.skip(0) =~= cs@);
    }
    while i < cs.len()
        invariant
            i <= cs@.len(),
            first_bad(cs@, op) == first_bad(cs@.skip(i as int), op),
        decreases cs@.len() - i,
    {
        if !check_completion(&cs[i], op) {
            return Some(cs[i]);
        }
        proof {
            assert(cs@.skip(i as int).skip(1) =~= cs@.skip(i + 1));
        }
        i = i + 1;
    }
    None
}

} // verus!
