use benchmark::rdma::verbs::{
    bytes_eq, check_completion, post_read, post_recv, post_send, post_write, select_device,
    AccessFlags, AhAttr, IbvMr, IbvQp, Mtu, PostError, QpError, QpState, QpTransition,
    RemoteTarget, Sge, WcOpcode, WcStatus, WorkCompletion, WorkRequest, WrOpcode,
};

fn ready_pair() -> IbvQp {
    let mut qp = IbvQp::new(5);
    qp.modify_reset2init(1).unwrap();
    qp.modify_init2rtr(0, 1, 6, 7, 8).unwrap();
    qp.modify_rtr2rts(9).unwrap();
    qp
}

#[test]
fn new_queue_pair_is_in_reset() {
    let qp = IbvQp::new(17);
    assert_eq!(qp.get_qpn(), 17);
    assert_eq!(qp.get_state(), QpState::Reset);
    assert!(!qp.can_post());
}

#[test]
fn reset_to_init_grants_all_three_permissions() {
    let mut qp = IbvQp::new(17);
    let t = qp.modify_reset2init(3);
    assert_eq!(
        t,
        Ok(QpTransition::ToInit {
            pkey_index: 0,
            port_num: 3,
            access: AccessFlags { local_write: true, remote_read: true, remote_write: true },
        })
    );
    assert_eq!(qp.get_state(), QpState::Init);
    assert_eq!(qp.get_qpn(), 17);
}

#[test]
fn init_to_ready_to_receive_carries_the_peer() {
    let mut qp = IbvQp::new(17);
    qp.modify_reset2init(1).unwrap();
    let t = qp.modify_init2rtr(2, 1, 0xABC, 0x123456, 0x77);
    assert_eq!(
        t,
        Ok(QpTransition::ToReadyToReceive {
            path_mtu: Mtu::Mtu1024,
            dest_qp_num: 0xABC,
            rq_psn: 0x123456,
            max_dest_rd_atomic: 1,
            min_rnr_timer: 12,
            ah_attr: AhAttr { is_global: false, dlid: 0x77, sl: 2, src_path_bits: 0, port_num: 1 },
        })
    );
    assert_eq!(qp.get_state(), QpState::ReadyToReceive);
}

#[test]
fn ready_to_receive_to_ready_to_send_carries_the_local_sequence_number() {
    let mut qp = IbvQp::new(17);
    qp.modify_reset2init(1).unwrap();
    qp.modify_init2rtr(0, 1, 2, 3, 4).unwrap();
    let t = qp.modify_rtr2rts(0xFEED);
    assert_eq!(
        t,
        Ok(QpTransition::ToReadyToSend {
            timeout: 14,
            retry_cnt: 7,
            rnr_retry: 7,
            sq_psn: 0xFEED,
            max_rd_atomic: 1,
        })
    );
    assert_eq!(qp.get_state(), QpState::ReadyToSend);
    assert!(qp.can_post());
}

#[test]
fn ready_to_receive_before_init_is_rejected() {
    let mut qp = IbvQp::new(1);
    let r = qp.modify_init2rtr(0, 1, 2, 3, 4);
    assert_eq!(r, Err(QpError::OutOfOrder { from: QpState::Reset }));
    assert_eq!(qp.get_state(), QpState::Error);
}

#[test]
fn ready_to_send_before_ready_to_receive_is_rejected() {
    let mut qp = IbvQp::new(1);
    assert_eq!(qp.modify_rtr2rts(5), Err(QpError::OutOfOrder { from: QpState::Reset }));
    let mut qp = IbvQp::new(1);
    qp.modify_reset2init(1).unwrap();
    assert_eq!(qp.modify_rtr2rts(5), Err(QpError::OutOfOrder { from: QpState::Init }));
    assert_eq!(qp.get_state(), QpState::Error);
}

#[test]
fn no_transition_is_taken_twice_or_backwards() {
    let mut qp = IbvQp::new(1);
    qp.modify_reset2init(1).unwrap();
    assert_eq!(qp.modify_reset2init(1), Err(QpError::OutOfOrder { from: QpState::Init }));
    let mut qp = ready_pair();
    assert_eq!(qp.modify_reset2init(1), Err(QpError::OutOfOrder { from: QpState::ReadyToSend }));
    let mut qp = ready_pair();
    assert_eq!(
        qp.modify_init2rtr(0, 1, 2, 3, 4),
        Err(QpError::OutOfOrder { from: QpState::ReadyToSend })
    );
    let mut qp = ready_pair();
    assert_eq!(qp.modify_rtr2rts(1), Err(QpError::OutOfOrder { from: QpState::ReadyToSend }));
}

#[test]
fn a_failed_pair_accepts_nothing() {
    let mut qp = IbvQp::new(1);
    qp.fail();
    assert_eq!(qp.get_state(), QpState::Error);
    assert_eq!(qp.modify_reset2init(1), Err(QpError::OutOfOrder { from: QpState::Error }));
    assert_eq!(qp.modify_rtr2rts(1), Err(QpError::OutOfOrder { from: QpState::Error }));
    assert_eq!(qp.get_qpn(), 1);
}

#[test]
fn modify_applies_a_given_transition() {
    let mut qp = IbvQp::new(1);
    let t = QpTransition::ToInit {
        pkey_index: 0,
        port_num: 1,
        access: AccessFlags { local_write: true, remote_read: false, remote_write: false },
    };
    assert_eq!(qp.modify(t), Ok(t));
    assert_eq!(qp.get_state(), QpState::Init);
    assert_eq!(qp.modify(t), Err(QpError::OutOfOrder { from: QpState::Init }));
}

#[test]
fn memory_region_exposes_its_keys() {
    let mr = IbvMr::new(0x1000, 64, 0xAA, 0xBB);
    assert_eq!(mr.lkey(), 0xAA);
    assert_eq!(mr.rkey(), 0xBB);
    assert_eq!(mr.addr, 0x1000);
    assert_eq!(mr.len, 64);
}

#[test]
fn post_read_builds_a_one_sided_request() {
    let qp = ready_pair();
    let mr = IbvMr::new(0x1000, 64, 0xAA, 0xBB);
    let wr = post_read(0x1010, 16, 0x9000, 0xCC, &qp, &mr, 3, false);
    assert_eq!(
        wr,
        Ok(WorkRequest {
            wr_id: 3,
            opcode: WrOpcode::RdmaRead,
            sge: Sge { addr: 0x1010, length: 16, lkey: 0xAA },
            remote: Some(RemoteTarget { addr: 0x9000, rkey: 0xCC }),
            signaled: false,
        })
    );
}

#[test]
fn post_write_builds_a_one_sided_request() {
    let qp = ready_pair();
    let mr = IbvMr::new(0x1000, 64, 0xAA, 0xBB);
    let wr = post_write(0x1000, 64, 0x9000, 0xCC, &qp, &mr, 0, true);
    assert_eq!(
        wr,
        Ok(WorkRequest {
            wr_id: 0,
            opcode: WrOpcode::RdmaWrite,
            sge: Sge { addr: 0x1000, length: 64, lkey: 0xAA },
            remote: Some(RemoteTarget { addr: 0x9000, rkey: 0xCC }),
            signaled: true,
        })
    );
}

#[test]
fn posting_before_ready_to_send_is_refused() {
    let mr = IbvMr::new(0x1000, 64, 0xAA, 0xBB);
    let mut qp = IbvQp::new(1);
    assert_eq!(
        post_read(0x1000, 1, 0, 0, &qp, &mr, 0, true),
        Err(PostError::NotReady { state: QpState::Reset })
    );
    qp.modify_reset2init(1).unwrap();
    assert_eq!(
        post_write(0x1000, 1, 0, 0, &qp, &mr, 0, true),
        Err(PostError::NotReady { state: QpState::Init })
    );
    qp.modify_init2rtr(0, 1, 2, 3, 4).unwrap();
    assert_eq!(
        post_write(0x1000, 1, 0, 0, &qp, &mr, 0, true),
        Err(PostError::NotReady { state: QpState::ReadyToReceive })
    );
}

#[test]
fn two_sided_requests_are_signaled_and_have_no_remote() {
    assert_eq!(
        post_send(0x2000, 32, 0xAA, 9),
        WorkRequest {
            wr_id: 9,
            opcode: WrOpcode::Send,
            sge: Sge { addr: 0x2000, length: 32, lkey: 0xAA },
            remote: None,
            signaled: true,
        }
    );
    assert_eq!(
        post_recv(0x3000, 8, 0xAB, 10),
        WorkRequest {
            wr_id: 10,
            opcode: WrOpcode::Recv,
            sge: Sge { addr: 0x3000, length: 8, lkey: 0xAB },
            remote: None,
            signaled: true,
        }
    );
}

#[test]
fn a_completion_is_good_when_it_succeeds_and_echoes_the_operation() {
    let ok = WorkCompletion { wr_id: 1, status: WcStatus::Success, opcode: WcOpcode::RdmaRead };
    assert!(check_completion(&ok, WrOpcode::RdmaRead));
    assert!(!check_completion(&ok, WrOpcode::RdmaWrite));
    assert!(!check_completion(&ok, WrOpcode::Send));
    let failed =
        WorkCompletion { wr_id: 1, status: WcStatus::Failure(12), opcode: WcOpcode::RdmaRead };
    assert!(!check_completion(&failed, WrOpcode::RdmaRead));
    let w = WorkCompletion { wr_id: 1, status: WcStatus::Success, opcode: WcOpcode::RdmaWrite };
    assert!(check_completion(&w, WrOpcode::RdmaWrite));
    let s = WorkCompletion { wr_id: 1, status: WcStatus::Success, opcode: WcOpcode::Send };
    assert!(check_completion(&s, WrOpcode::Send));
    let r = WorkCompletion { wr_id: 1, status: WcStatus::Success, opcode: WcOpcode::Recv };
    assert!(check_completion(&r, WrOpcode::Recv));
    let o = WorkCompletion { wr_id: 1, status: WcStatus::Success, opcode: WcOpcode::Other };
    assert!(!check_completion(&o, WrOpcode::Recv));
}

#[test]
fn bytes_eq_compares_contents() {
    assert!(bytes_eq(b"mlx5_1", b"mlx5_1"));
    assert!(!bytes_eq(b"mlx5_1", b"mlx5_0"));
    assert!(!bytes_eq(b"mlx5_1", b"mlx5_10"));
    assert!(bytes_eq(b"", b""));
}

#[test]
fn select_device_takes_the_first_without_a_name() {
    let names = vec![b"mlx5_0".to_vec(), b"mlx5_1".to_vec()];
    assert_eq!(select_device(&names, None), Some(0));
    assert_eq!(select_device(&Vec::new(), None), None);
}

#[test]
fn select_device_takes_the_first_of_that_name() {
    let names = vec![b"mlx5_0".to_vec(), b"mlx5_1".to_vec(), b"mlx5_1".to_vec()];
    assert_eq!(select_device(&names, Some(b"mlx5_1")), Some(1));
    assert_eq!(select_device(&names, Some(b"mlx5_0")), Some(0));
    assert_eq!(select_device(&names, Some(b"mlx5_2")), None);
    assert_eq!(select_device(&names, Some(b"mlx5")), None);
    assert_eq!(select_device(&Vec::new(), Some(b"mlx5_1")), None);
}
