use benchmark::connection::MemInfo;
use benchmark::rdma::transfer::{
    Transfer, TransferAction, TransferError, TransferEvent, TransferPlan,
};
use benchmark::rdma::verbs::{
    IbvMr, IbvQp, QpState, RemoteTarget, Sge, WcOpcode, WcStatus, WorkCompletion, WorkRequest,
    WrOpcode,
};

fn ready_pair() -> IbvQp {
    let mut qp = IbvQp::new(5);
    qp.modify_reset2init(1).unwrap();
    qp.modify_init2rtr(0, 1, 6, 7, 8).unwrap();
    qp.modify_rtr2rts(9).unwrap();
    qp
}

fn good(wr_id: u64, opcode: WcOpcode) -> WorkCompletion {
    WorkCompletion { wr_id, status: WcStatus::Success, opcode }
}

fn read_of(total: usize, chunk: usize, depth: i32) -> Transfer {
    let local = IbvMr::new(0x10_0000, total, 0xA, 0xB);
    let remote = MemInfo::new(0x90_0000, total, 0xC);
    Transfer::new(WrOpcode::RdmaRead, &ready_pair(), local, remote, total, chunk, depth).unwrap()
}

/// Runs a transfer against a queue that completes `per_poll` requests per
/// poll, after `idle` polls that return nothing. Gives the requests in the
/// order they were handed out, the number of polls, and the largest number
/// of requests in flight.
fn run(t: &mut Transfer, per_poll: usize, idle: usize) -> (Vec<WorkRequest>, usize, usize) {
    let opcode = match t.plan().opcode {
        WrOpcode::RdmaRead => WcOpcode::RdmaRead,
        _ => WcOpcode::RdmaWrite,
    };
    let mut requests = Vec::new();
    let mut polls = 0;
    let mut high = 0;
    let mut wait = idle;
    let mut action = t.pending().unwrap();
    loop {
        assert!(t.in_flight() <= t.plan().depth);
        if t.in_flight() > high {
            high = t.in_flight();
        }
        match action {
            TransferAction::Post(wr) => {
                requests.push(wr);
                action = t.step(TransferEvent::Posted).unwrap();
            }
            TransferAction::Poll => {
                polls += 1;
                let n = if wait > 0 {
                    wait -= 1;
                    0
                } else {
                    wait = idle;
                    per_poll.min(t.in_flight())
                };
                let cs = (0..n).map(|i| good(i as u64, opcode)).collect();
                action = t.step(TransferEvent::Polled(cs)).unwrap();
            }
            TransferAction::Done => break,
        }
    }
    (requests, polls, high)
}

#[test]
fn requests_tile_the_buffer() {
    let mut t = read_of(2500, 1024, 2);
    let (requests, _, _) = run(&mut t, 1, 0);
    assert_eq!(
        requests,
        vec![
            WorkRequest {
                wr_id: 0,
                opcode: WrOpcode::RdmaRead,
                sge: Sge { addr: 0x10_0000, length: 1024, lkey: 0xA },
                remote: Some(RemoteTarget { addr: 0x90_0000, rkey: 0xC }),
                signaled: false,
            },
            WorkRequest {
                wr_id: 1,
                opcode: WrOpcode::RdmaRead,
                sge: Sge { addr: 0x10_0400, length: 1024, lkey: 0xA },
                remote: Some(RemoteTarget { addr: 0x90_0400, rkey: 0xC }),
                signaled: true,
            },
            WorkRequest {
                wr_id: 2,
                opcode: WrOpcode::RdmaRead,
                sge: Sge { addr: 0x10_0800, length: 452, lkey: 0xA },
                remote: Some(RemoteTarget { addr: 0x90_0800, rkey: 0xC }),
                signaled: true,
            },
        ]
    );
    assert_eq!(t.posted(), 3);
    assert_eq!(t.in_flight(), 0);
}

#[test]
fn request_count_is_the_quotient_rounded_up() {
    let cases: [(usize, usize); 8] =
        [(1, 1), (10, 3), (10, 5), (10, 10), (10, 11), (1000, 7), (4096, 1024), (4097, 1024)];
    for (total, chunk) in cases {
        let mut t = read_of(total, chunk, 3);
        let (requests, _, _) = run(&mut t, 2, 1);
        let expected = (total + chunk - 1) / chunk;
        assert_eq!(requests.len(), expected);
        assert_eq!(t.posted(), expected);
        let last = requests.last().unwrap().sge.length as usize;
        if total % chunk == 0 {
            assert_eq!(last, chunk);
        } else {
            assert_eq!(last, total % chunk);
        }
        let mut offset: u64 = 0;
        for (i, wr) in requests.iter().enumerate() {
            assert_eq!(wr.wr_id, i as u64);
            assert_eq!(wr.sge.addr, 0x10_0000 + offset);
            assert_eq!(wr.remote.unwrap().addr, 0x90_0000 + offset);
            if i + 1 < requests.len() {
                assert_eq!(wr.sge.length as usize, chunk);
            }
            offset += wr.sge.length as u64;
        }
        assert_eq!(offset, total as u64);
    }
}

#[test]
fn in_flight_requests_never_exceed_the_window() {
    for depth in 1..6 {
        for per_poll in 1..7 {
            for idle in 0..3 {
                let mut t = read_of(1000, 64, depth);
                let (requests, _, high) = run(&mut t, per_poll, idle);
                assert_eq!(requests.len(), 16);
                assert!(high <= depth as usize);
                assert_eq!(high, (depth as usize).min(16));
            }
        }
    }
}

#[test]
fn a_full_window_is_polled_before_the_next_request() {
    let mut t = read_of(4096, 1024, 2);
    assert!(matches!(t.pending(), Ok(TransferAction::Post(_))));
    assert!(matches!(t.step(TransferEvent::Posted), Ok(TransferAction::Post(_))));
    assert_eq!(t.step(TransferEvent::Posted), Ok(TransferAction::Poll));
    assert_eq!(t.in_flight(), 2);
    assert_eq!(t.step(TransferEvent::Polled(vec![])), Ok(TransferAction::Poll));
    assert_eq!(t.in_flight(), 2);
    let next = t.step(TransferEvent::Polled(vec![good(0, WcOpcode::RdmaRead)]));
    assert!(matches!(next, Ok(TransferAction::Post(wr)) if wr.wr_id == 2 && wr.signaled));
    assert_eq!(t.in_flight(), 1);
}

#[test]
fn the_request_that_fills_the_window_is_signaled() {
    let mut t = read_of(8 * 16, 16, 4);
    let (requests, _, _) = run(&mut t, 4, 0);
    let signaled: Vec<bool> = requests.iter().map(|wr| wr.signaled).collect();
    assert_eq!(signaled, vec![false, false, false, true, false, false, false, true]);
}

#[test]
fn a_short_final_request_is_always_signaled() {
    let mut t = read_of(40, 16, 100);
    let (requests, _, _) = run(&mut t, 100, 0);
    let signaled: Vec<bool> = requests.iter().map(|wr| wr.signaled).collect();
    assert_eq!(signaled, vec![false, false, true]);
    assert_eq!(requests[2].sge.length, 8);
}

#[test]
fn with_a_window_of_one_every_request_is_signaled_and_polled() {
    let mut t = read_of(48, 16, 1);
    let (requests, polls, high) = run(&mut t, 1, 0);
    assert!(requests.iter().all(|wr| wr.signaled));
    assert_eq!(polls, 3);
    assert_eq!(high, 1);
}

#[test]
fn large_transfer_in_small_chunks() {
    let total = 1_073_733_000;
    let local = IbvMr::new(0x1000_0000, total, 1, 2);
    let remote = MemInfo::new(0x7000_0000_0000, total, 3);
    let mut t =
        Transfer::new(WrOpcode::RdmaWrite, &ready_pair(), local, remote, total, 1024, 4096)
            .unwrap();
    let mut submitted: u64 = 0;
    let mut bytes: u64 = 0;
    let mut action = t.pending().unwrap();
    loop {
        match action {
            TransferAction::Post(wr) => {
                assert_eq!(wr.wr_id, submitted);
                assert_eq!(wr.sge.addr, 0x1000_0000 + bytes);
                assert_eq!(wr.remote.unwrap().addr, 0x7000_0000_0000 + bytes);
                submitted += 1;
                bytes += wr.sge.length as u64;
                action = t.step(TransferEvent::Posted).unwrap();
            }
            TransferAction::Poll => {
                assert!(t.in_flight() <= 4096);
                let cs = (0..t.in_flight()).map(|i| good(i as u64, WcOpcode::RdmaWrite)).collect();
                action = t.step(TransferEvent::Polled(cs)).unwrap();
            }
            TransferAction::Done => break,
        }
    }
    assert_eq!(submitted, 1_048_568);
    assert_eq!(submitted, (1_073_733_000u64 + 1023) / 1024);
    assert_eq!(bytes, 1_073_733_000);
    assert_eq!(t.posted(), 1_048_568);
    assert_eq!(t.in_flight(), 0);
}

#[test]
fn empty_transfer_is_done_at_once() {
    let t = read_of(0, 1024, 4);
    assert_eq!(t.pending(), Ok(TransferAction::Done));
    assert_eq!(t.posted(), 0);
    assert_eq!(t.in_flight(), 0);
    let mut t = read_of(0, 1024, 4);
    let (requests, polls, high) = run(&mut t, 1, 0);
    assert!(requests.is_empty());
    assert_eq!(polls, 0);
    assert_eq!(high, 0);
}

#[test]
fn a_plan_is_drawn_up_from_the_arguments() {
    let local = IbvMr::new(0x1000, 100, 1, 2);
    let remote = MemInfo::new(0x9000, 200, 3);
    let t = Transfer::new(WrOpcode::RdmaWrite, &ready_pair(), local, remote, 100, 30, 7).unwrap();
    assert_eq!(
        t.plan(),
        TransferPlan { opcode: WrOpcode::RdmaWrite, local, remote, total: 100, chunk: 30, depth: 7 }
    );
}

#[test]
fn a_transfer_needs_a_ready_queue_pair() {
    let local = IbvMr::new(0x1000, 100, 1, 2);
    let remote = MemInfo::new(0x9000, 100, 3);
    let mut qp = IbvQp::new(1);
    let r = Transfer::new(WrOpcode::RdmaRead, &qp, local, remote, 100, 10, 1);
    assert_eq!(r.unwrap_err(), TransferError::NotReady { state: QpState::Reset });
    qp.modify_reset2init(1).unwrap();
    qp.modify_init2rtr(0, 1, 2, 3, 4).unwrap();
    let r = Transfer::new(WrOpcode::RdmaRead, &qp, local, remote, 100, 0, 0);
    assert_eq!(r.unwrap_err(), TransferError::NotReady { state: QpState::ReadyToReceive });
}

#[test]
fn a_defective_plan_is_refused() {
    let qp = ready_pair();
    let local = IbvMr::new(0x1000, 100, 1, 2);
    let remote = MemInfo::new(0x9000, 100, 3);
    let new = |op, l, r, total, chunk, depth| {
        Transfer::new(op, &qp, l, r, total, chunk, depth).unwrap_err()
    };
    assert_eq!(new(WrOpcode::Send, local, remote, 100, 10, 1), TransferError::NotOneSided);
    assert_eq!(new(WrOpcode::Recv, local, remote, 100, 0, 0), TransferError::NotOneSided);
    assert_eq!(new(WrOpcode::RdmaRead, local, remote, 100, 0, 0), TransferError::ZeroChunk);
    assert_eq!(new(WrOpcode::RdmaRead, local, remote, 101, 10, 1), TransferError::LocalTooSmall);
    let small = MemInfo::new(0x9000, 99, 3);
    assert_eq!(new(WrOpcode::RdmaRead, local, small, 100, 10, 1), TransferError::RemoteTooSmall);
}

#[test]
fn without_a_window_everything_is_submitted_before_the_first_poll() {
    for depth in [0, -1, i32::MIN] {
        let mut t = read_of(100, 16, depth);
        assert_eq!(t.plan().depth, 0);
        let mut action = t.pending().unwrap();
        let mut submitted: u64 = 0;
        while let TransferAction::Post(wr) = action {
            assert_eq!(wr.wr_id, submitted);
            assert_eq!(wr.signaled, submitted == 6);
            submitted += 1;
            action = t.step(TransferEvent::Posted).unwrap();
        }
        assert_eq!(submitted, 7);
        assert_eq!(action, TransferAction::Poll);
        assert_eq!(t.in_flight(), 7);
        let cs = (0..7u64).map(|i| good(i, WcOpcode::RdmaRead)).collect();
        assert_eq!(t.step(TransferEvent::Polled(cs)), Ok(TransferAction::Done));
    }
}

#[test]
fn a_chunk_may_be_longer_than_the_transfer() {
    let mut t = read_of(100, usize::MAX, 4);
    let (requests, polls, _) = run(&mut t, 1, 0);
    assert_eq!(requests.len(), 1);
    assert_eq!(requests[0].sge.length, 100);
    assert!(requests[0].signaled);
    assert_eq!(polls, 1);
}

#[test]
fn addresses_are_computed_in_64_bits() {
    let qp = ready_pair();
    let local = IbvMr::new(u64::MAX - 15, 64, 1, 2);
    let remote = MemInfo::new(u64::MAX - 31, 64, 3);
    let mut t = Transfer::new(WrOpcode::RdmaRead, &qp, local, remote, 64, 16, 8).unwrap();
    let (requests, _, _) = run(&mut t, 8, 0);
    let local_addrs: Vec<u64> = requests.iter().map(|wr| wr.sge.addr).collect();
    let remote_addrs: Vec<u64> = requests.iter().map(|wr| wr.remote.unwrap().addr).collect();
    assert_eq!(local_addrs, vec![u64::MAX - 15, 0, 16, 32]);
    assert_eq!(remote_addrs, vec![u64::MAX - 31, u64::MAX - 15, 0, 16]);
}

#[test]
fn a_failed_completion_ends_the_transfer() {
    let mut t = read_of(64, 16, 2);
    t.step(TransferEvent::Posted).unwrap();
    assert_eq!(t.step(TransferEvent::Posted), Ok(TransferAction::Poll));
    let bad = WorkCompletion { wr_id: 1, status: WcStatus::Failure(12), opcode: WcOpcode::RdmaRead };
    let r = t.step(TransferEvent::Polled(vec![good(0, WcOpcode::RdmaRead), bad]));
    assert_eq!(r, Err(TransferError::BadCompletion(bad)));
    assert_eq!(t.in_flight(), 2);
    assert_eq!(t.pending(), Err(TransferError::BadCompletion(bad)));
    assert_eq!(t.step(TransferEvent::Posted), Err(TransferError::BadCompletion(bad)));
    assert_eq!(t.step(TransferEvent::Polled(vec![])), Err(TransferError::BadCompletion(bad)));
}

#[test]
fn a_completion_of_another_operation_ends_the_transfer() {
    let mut t = read_of(16, 16, 1);
    assert_eq!(t.step(TransferEvent::Posted), Ok(TransferAction::Poll));
    let wrong = good(0, WcOpcode::RdmaWrite);
    let first = good(7, WcOpcode::Send);
    let r = t.step(TransferEvent::Polled(vec![first, wrong]));
    assert_eq!(r, Err(TransferError::BadCompletion(first)));
}

#[test]
fn more_completions_than_requests_end_the_transfer() {
    let mut t = read_of(16, 16, 4);
    assert_eq!(t.step(TransferEvent::Posted), Ok(TransferAction::Poll));
    let cs = vec![good(0, WcOpcode::RdmaRead), good(1, WcOpcode::RdmaRead)];
    assert_eq!(t.step(TransferEvent::Polled(cs)), Err(TransferError::Overrun));
    assert_eq!(t.pending(), Err(TransferError::Overrun));
}

#[test]
fn an_event_that_answers_nothing_ends_the_transfer() {
    let mut t = read_of(64, 16, 2);
    assert_eq!(t.step(TransferEvent::Polled(vec![])), Err(TransferError::UnexpectedEvent));
    let mut t = read_of(64, 16, 1);
    assert_eq!(t.step(TransferEvent::Posted), Ok(TransferAction::Poll));
    assert_eq!(t.step(TransferEvent::Posted), Err(TransferError::UnexpectedEvent));
    assert_eq!(t.posted(), 1);
    let mut t = read_of(0, 16, 1);
    assert_eq!(t.step(TransferEvent::Posted), Err(TransferError::UnexpectedEvent));
    let mut t = read_of(0, 16, 1);
    assert_eq!(t.step(TransferEvent::Polled(vec![])), Err(TransferError::UnexpectedEvent));
}

#[test]
fn draining_goes_on_until_nothing_is_in_flight() {
    let mut t = read_of(48, 16, 8);
    t.step(TransferEvent::Posted).unwrap();
    t.step(TransferEvent::Posted).unwrap();
    assert_eq!(t.step(TransferEvent::Posted), Ok(TransferAction::Poll));
    assert_eq!(t.in_flight(), 3);
    let one = vec![good(0, WcOpcode::RdmaRead)];
    assert_eq!(t.step(TransferEvent::Polled(one)), Ok(TransferAction::Poll));
    assert_eq!(t.in_flight(), 2);
    let two = vec![good(1, WcOpcode::RdmaRead), good(2, WcOpcode::RdmaRead)];
    assert_eq!(t.step(TransferEvent::Polled(two)), Ok(TransferAction::Done));
    assert_eq!(t.in_flight(), 0);
    assert_eq!(t.pending(), Ok(TransferAction::Done));
}
