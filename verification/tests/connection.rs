use benchmark::connection::{
    check_disconnect, client_disconnect, decode_addr_key, decode_length, decode_mem_info,
    decode_qp_info, disconnect_frame, encode_addr_key, encode_length, encode_mem_info,
    encode_qp_info, get_mem_info, get_qp_info, put_mem_info, put_qp_info, server_disconnect,
    DisconnectError, FrameError, FrameReader, MemInfo, QpInfo, ADDR_KEY_LEN, DISCONNECT_LEN,
    DISCONNECT_SIGNAL, LENGTH_LEN, MEM_INFO_LEN, QP_INFO_LEN,
};

#[test]
fn mem_info_new_keeps_its_arguments() {
    let m = MemInfo::new(0x7f00_0000_1000, 4096, 0xABCD);
    assert_eq!(m.addr, 0x7f00_0000_1000);
    assert_eq!(m.len, 4096);
    assert_eq!(m.rkey, 0xABCD);
}

#[test]
fn message_lengths_are_fixed() {
    assert_eq!(QP_INFO_LEN, 10);
    assert_eq!(MEM_INFO_LEN, 16);
    assert_eq!(LENGTH_LEN, 4);
    assert_eq!(ADDR_KEY_LEN, 12);
    assert_eq!(DISCONNECT_LEN, 4);
}

#[test]
fn qp_info_is_laid_out_little_endian() {
    let q = QpInfo { qpn: 0x0001_0203, psn: 0xA0B0_C0D0, lid: 0x1122 };
    let bytes = encode_qp_info(&q);
    assert_eq!(bytes, vec![0x03, 0x02, 0x01, 0x00, 0xD0, 0xC0, 0xB0, 0xA0, 0x22, 0x11]);
}

#[test]
fn mem_info_is_laid_out_little_endian() {
    let m = MemInfo::new(0x0102_0304_0506_0708, 0x0A0B_0C0D, 0x1112_1314);
    let bytes = encode_mem_info(&m);
    assert_eq!(
        bytes,
        vec![
            0x08, 0x07, 0x06, 0x05, 0x04, 0x03, 0x02, 0x01, 0x0D, 0x0C, 0x0B, 0x0A, 0x14, 0x13,
            0x12, 0x11
        ]
    );
}

#[test]
fn handshake_round_trip() {
    let q = QpInfo { qpn: 77, psn: 0xFFFF_FFFF, lid: 65535 };
    let m = MemInfo::new(u64::MAX, 1_073_733_000, 0);
    assert_eq!(decode_qp_info(&encode_qp_info(&q)), Some(q));
    assert_eq!(decode_mem_info(&encode_mem_info(&m)), Some(m));
    let mut both = Vec::new();
    put_qp_info(&mut both, &q);
    put_mem_info(&mut both, &m);
    assert_eq!(both.len(), 26);
    assert_eq!(get_qp_info(&both, 0), q);
    assert_eq!(get_mem_info(&both, 10), m);
}

#[test]
fn decoded_bytes_encode_to_themselves() {
    let bytes: Vec<u8> = (1u8..=10).collect();
    let q = decode_qp_info(&bytes).unwrap();
    assert_eq!(encode_qp_info(&q), bytes);
    let bytes: Vec<u8> = (100u8..116).collect();
    let m = decode_mem_info(&bytes).unwrap();
    assert_eq!(encode_mem_info(&m), bytes);
}

#[test]
fn length_field_holds_the_low_32_bits() {
    let len: u64 = 0x1_0000_0005;
    if let Ok(len) = usize::try_from(len) {
        let m = MemInfo::new(1, len, 2);
        let back = decode_mem_info(&encode_mem_info(&m)).unwrap();
        assert_eq!(back, MemInfo::new(1, 5, 2));
        assert_eq!(decode_length(&encode_length(len)), Some(5));
    }
    assert_eq!(encode_length(0x0A0B_0C0D), vec![0x0D, 0x0C, 0x0B, 0x0A]);
    assert_eq!(decode_length(&[0x0D, 0x0C, 0x0B, 0x0A]), Some(0x0A0B_0C0D));
}

#[test]
fn addr_key_round_trip() {
    let bytes = encode_addr_key(0x0102_0304_0506_0708, 0x1112_1314);
    assert_eq!(
        bytes,
        vec![0x08, 0x07, 0x06, 0x05, 0x04, 0x03, 0x02, 0x01, 0x14, 0x13, 0x12, 0x11]
    );
    assert_eq!(decode_addr_key(&bytes), Some((0x0102_0304_0506_0708, 0x1112_1314)));
}

#[test]
fn messages_of_another_length_are_not_decoded() {
    assert_eq!(decode_qp_info(&[0u8; 9]), None);
    assert_eq!(decode_qp_info(&[0u8; 11]), None);
    assert_eq!(decode_mem_info(&[0u8; 15]), None);
    assert_eq!(decode_mem_info(&[0u8; 17]), None);
    assert_eq!(decode_length(&[0u8; 3]), None);
    assert_eq!(decode_length(&[]), None);
    assert_eq!(decode_addr_key(&[0u8; 16]), None);
}

#[test]
fn disconnect_sentinel_round_trip() {
    let frame = client_disconnect();
    assert_eq!(frame, vec![42, 0, 0, 0]);
    assert_eq!(frame, 42_i32.to_le_bytes().to_vec());
    assert_eq!(server_disconnect(&frame), Ok(()));
    assert_eq!(DISCONNECT_SIGNAL, 42);
}

#[test]
fn any_other_value_is_a_protocol_violation() {
    assert_eq!(server_disconnect(&[43, 0, 0, 0]), Err(DisconnectError::Violation { value: 43 }));
    assert_eq!(
        server_disconnect(&[0, 0, 0, 42]),
        Err(DisconnectError::Violation { value: 42 << 24 })
    );
    assert_eq!(server_disconnect(&[0, 0, 0, 0]), Err(DisconnectError::Violation { value: 0 }));
}

#[test]
fn a_short_disconnect_read_is_an_error() {
    assert_eq!(server_disconnect(&[42, 0, 0]), Err(DisconnectError::WrongLength { got: 3 }));
    assert_eq!(server_disconnect(&[]), Err(DisconnectError::WrongLength { got: 0 }));
    assert_eq!(
        server_disconnect(&[42, 0, 0, 0, 0]),
        Err(DisconnectError::WrongLength { got: 5 })
    );
}

#[test]
fn disconnect_frame_carries_any_signal() {
    assert_eq!(disconnect_frame(0x10), vec![0x10, 0, 0, 0]);
    assert_eq!(check_disconnect(&[0x10, 0, 0, 0], 0x10), Ok(()));
    assert_eq!(
        check_disconnect(&[42, 0, 0, 0], 0x10),
        Err(DisconnectError::Violation { value: 42 })
    );
    assert_eq!(check_disconnect(&disconnect_frame(u32::MAX), u32::MAX), Ok(()));
}

#[test]
fn frame_reader_gathers_partial_reads() {
    let mut r = FrameReader::new(10);
    assert_eq!(r.remaining(), 10);
    assert!(!r.is_complete());
    assert_eq!(r.feed(&[1, 2, 3]), Ok(false));
    assert_eq!(r.remaining(), 7);
    assert_eq!(r.feed(&[4]), Ok(false));
    assert_eq!(r.feed(&[5, 6, 7, 8, 9, 10]), Ok(true));
    assert!(r.is_complete());
    assert_eq!(r.remaining(), 0);
    assert_eq!(r.bytes(), &[1, 2, 3, 4, 5, 6, 7, 8, 9, 10]);
}

#[test]
fn frame_reader_takes_a_whole_frame_at_once() {
    let mut r = FrameReader::new(4);
    assert_eq!(r.feed(&[9, 8, 7, 6]), Ok(true));
    assert_eq!(r.bytes(), &[9, 8, 7, 6]);
}

#[test]
fn frame_reader_reports_the_end_of_the_stream() {
    let mut r = FrameReader::new(4);
    assert_eq!(r.feed(&[1]), Ok(false));
    assert_eq!(r.feed(&[]), Err(FrameError::Closed { missing: 3 }));
    assert_eq!(r.bytes(), &[1]);
    assert_eq!(r.remaining(), 3);
}

#[test]
fn frame_reader_refuses_what_does_not_fit() {
    let mut r = FrameReader::new(4);
    assert_eq!(r.feed(&[1, 2]), Ok(false));
    assert_eq!(r.feed(&[3, 4, 5]), Err(FrameError::TooLong { extra: 1 }));
    assert_eq!(r.bytes(), &[1, 2]);
    assert_eq!(r.feed(&[3, 4]), Ok(true));
    assert_eq!(r.feed(&[5]), Err(FrameError::TooLong { extra: 1 }));
}

#[test]
fn frame_reader_of_an_empty_frame_is_complete() {
    let mut r = FrameReader::new(0);
    assert!(r.is_complete());
    assert_eq!(r.feed(&[]), Ok(true));
}
