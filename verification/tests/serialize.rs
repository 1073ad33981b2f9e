use benchmark::serial::serialize::{bincode_serialize, serialize_batch, serialize_batches};
use bytes::{BufMut, BytesMut};

#[test]
fn a_frame_is_the_length_then_the_batch() {
    let mut buf = BytesMut::with_capacity(1024);
    let frame = serialize_batch(&mut buf, &[0xAA, 0xBB, 0xCC]);
    assert_eq!(&frame[..], &[3, 0, 0, 0, 0xAA, 0xBB, 0xCC]);
    assert!(buf.is_empty());
}

#[test]
fn a_frame_takes_along_what_the_buffer_held() {
    let mut buf = BytesMut::new();
    buf.put_u8(0xEE);
    let batch: Vec<u8> = (0..=255u16).map(|b| b as u8).chain(0..44).collect();
    assert_eq!(batch.len(), 300);
    let frame = serialize_batch(&mut buf, &batch);
    assert_eq!(frame.len(), 305);
    assert_eq!(&frame[..5], &[0xEE, 0x2C, 0x01, 0, 0]);
    assert_eq!(&frame[5..], &batch[..]);
    assert!(buf.is_empty());
    let next = serialize_batch(&mut buf, &[]);
    assert_eq!(&next[..], &[0, 0, 0, 0]);
}

#[test]
fn serialized_size_counts_full_batches_only() {
    let data = [7u8; 10];
    assert_eq!(bincode_serialize(&data, 3), 21);
    assert_eq!(bincode_serialize(&data, 5), 18);
    assert_eq!(bincode_serialize(&data, 10), 14);
    assert_eq!(bincode_serialize(&data, 11), 0);
    assert_eq!(bincode_serialize(&data, 1), 50);
    assert_eq!(bincode_serialize(&[], 4), 0);
}

#[test]
fn serialized_size_of_a_larger_input() {
    let data = vec![1u8; 1_000_000];
    assert_eq!(bincode_serialize(&data, 1024), 976 * 1028);
}

#[test]
fn every_full_batch_is_framed_in_order() {
    let data: Vec<u8> = (10u8..20).collect();
    let frames = serialize_batches(&data, 4);
    assert_eq!(frames.len(), 2);
    assert_eq!(&frames[0][..], &[4, 0, 0, 0, 10, 11, 12, 13]);
    assert_eq!(&frames[1][..], &[4, 0, 0, 0, 14, 15, 16, 17]);
    assert_eq!(bincode_serialize(&data, 4), 16);
    assert_eq!(data, (10u8..20).collect::<Vec<u8>>());
}

#[test]
fn nothing_is_framed_from_less_than_a_batch() {
    assert!(serialize_batches(&[1, 2, 3], 4).is_empty());
    assert!(serialize_batches(&[], 1).is_empty());
    let frames = serialize_batches(&[1, 2, 3], 1);
    assert_eq!(frames.len(), 3);
    assert_eq!(&frames[2][..], &[1, 0, 0, 0, 3]);
}
