//! Length-prefixed framing on top of the `bytes` buffers.
//!
//! A batch is framed as its length, in four little-endian bytes, followed by
//! the batch itself. The frames are built in a `BytesMut` and handed out as
//! `Bytes`, as a sender would queue them.

use crate::wire::{le_bytes, lemma_le_bytes_len};
use bytes::{BufMut, Bytes, BytesMut};
use vstd::prelude::*;

verus! {

#[verifier::external_type_specification]
#[verifier::external_body]
pub struct ExBytesMut(bytes::BytesMut);

#[verifier::external_type_specification]
#[verifier::external_body]
pub struct ExBytes(bytes::Bytes);

/// The bytes a `BytesMut` holds, first to last.
pub uninterp spec fn buffered(buf: BytesMut) -> Seq<u8>;

/// The bytes a `Bytes` holds, first to last.
pub uninterp spec fn frozen(bytes: Bytes) -> Seq<u8>;

/// `BytesMut::with_capacity`: a buffer that holds no bytes yet.
#[verifier::external_body]
fn buffer_with_capacity(capacity: usize) -> (buf: BytesMut)
    ensures
        buffered(buf) == Seq::<u8>::empty(),
{
    BytesMut::with_capacity(capacity)
}

/// `BufMut::put_u32_le` on a `BytesMut`: appends the four little-endian
/// bytes of `n`. The buffer grows as needed; the call panics only when the
/// new length would exceed `isize::MAX`, which `requires` rules out.
#[verifier::external_body]
fn buffer_put_u32_le(buf: &mut BytesMut, n: u32)
    requires
        buffered(*old(buf)).len() + 4 <= isize::MAX,
    ensures
        buffered(*final(buf)) == buffered(*old(buf)) + le_bytes(n as nat, 4),
{
    buf.put_u32_le(n)
}

/// `BufMut::put` on a `BytesMut`, with a byte slice as source: appends all
/// of `src`. The buffer grows as needed; the call panics only when the new
/// length would exceed `isize::MAX`, which `requires` rules out.
#[verifier::external_body]
fn buffer_put(buf: &mut BytesMut, src: &[u8])
    requires
        buffered(*old(buf)).len() + src@.len() <= isize::MAX,
    ensures
        buffered(*final(buf)) == buffered(*old(buf)) + src@,
{
    buf.put(src)
}

/// `BytesMut::split`: hands out everything the buffer holds and leaves it
/// empty.
#[verifier::external_body]
fn buffer_split(buf: &mut BytesMut) -> (head: BytesMut)
    ensures
        buffered(head) == buffered(*old(buf)),
        buffered(*final(buf)) == Seq::<u8>::empty(),
{
    buf.split()
}

/// `BytesMut::freeze`: the same bytes, immutable.
#[verifier::external_body]
fn buffer_freeze(buf: BytesMut) -> (bytes: Bytes)
    ensures
        frozen(bytes) == buffered(buf),
{
    buf.freeze()
}

/// `Bytes::len`: the number of bytes held.
#[verifier::external_body]
fn frozen_len(bytes: &Bytes) -> (n: usize)
    ensures
        n == frozen(*bytes).len(),
{
    bytes.len()
}

/// The frame of a batch: the low 32 bits of its length, little-endian, then
/// the batch.
pub open spec fn frame_bytes(batch: Seq<u8>) -> Seq<u8> {
    le_bytes(batch.len() % 0x1_0000_0000, 4) + batch
}

/// Number of bytes that framing `len` bytes in batches of `batch_size`
/// produces. Only full batches are framed; what is left over at the end is
/// not.
pub open spec fn serialized_size(len: nat, batch_size: nat) -> nat
    recommends
        batch_size > 0,
{
    (len / batch_size) * (batch_size + 4)
}

/// Frames `batch` at the end of `buf` and hands out everything `buf` then
/// holds, leaving it empty.
pub fn serialize_batch(buf: &mut BytesMut, batch: &[u8]) -> (frame: Bytes)
    requires
        buffered(*old(buf)).len() + 4 + batch@.len() <= isize::MAX,
    ensures
        frozen(frame) == buffered(*old(buf)) + frame_bytes(batch@),
        buffered(*final(buf)) == Seq::<u8>::empty(),
{
    let len = batch.len();
    proof {
        lemma_le_bytes_len((len as nat) % 0x1_0000_0000, 4);
    }
    buffer_put_u32_le(buf, (len as u64 % 0x1_0000_0000) as u32);
    buffer_put(buf, batch);
    let head = buffer_split(buf);
    let frame = buffer_freeze(head);
    proof {
        assert(frozen(frame) =~= buffered(*old(buf)) + frame_bytes(batch@));
    }
    frame
}

/// Batch `i` of `data` cut into batches of `batch_size` bytes.
pub open spec fn batch_of(data: Seq<u8>, batch_size: nat, i: int) -> Seq<u8> {
    data.subrange(i * batch_size, (i + 1) * batch_size)
}

/// Frames every full batch of `data`, in order: frame `i` is the length of
/// batch `i` followed by batch `i`. What is left over after the last full
/// batch is not framed.
pub fn serialize_batches(data: &[u8], batch_size: usize) -> (frames: Vec<Bytes>)
    requires
        batch_size > 0,
        batch_size + 4 <= isize::MAX,
    ensures
        frames@.len() == data@.len() / (batch_size as nat),
        forall|i: int|
            0 <= i < frames@.len() ==> frozen(#[trigger] frames@[i]) == frame_bytes(
                batch_of(data@, batch_size as nat, i),
            ),
{
    let len: usize = data.len();
    let batches: usize = len / batch_size;
    let mut buf = buffer_with_capacity(1024);
    let mut frames: Vec<Bytes> = Vec::new();
    let mut s_batch: usize = 0;
    let mut i: usize = 0;
    proof {
        vstd::arithmetic::div_mod::lemma_fundamental_div_mod(
            data@.len() as int,
            batch_size as int,
        );
        vstd::arithmetic::div_mod::lemma_mod_bound(data@.len() as int, batch_size as int);
        assert(batches * batch_size <= data@.len()) by (nonlinear_arith)
            requires
                data@.len() == batch_size * batches + (data@.len() as int % batch_size as int),
                0 <= data@.len() as int % batch_size as int,
        ;
    }
    while i < batches
        invariant
            i <= batches,
            data@.len() == len,
            batches * batch_size <= data@.len(),
            batches == data@.len() / (batch_size as nat),
            batch_size > 0,
            batch_size + 4 <= isize::MAX,
            s_batch == i * batch_size,
            frames@.len() == i,
            forall|j: int|
                0 <= j < i ==> frozen(#[trigger] frames@[j]) == frame_bytes(
                    batch_of(data@, batch_size as nat, j),
                ),
            buffered(buf) == Seq::<u8>::empty(),
        decreases batches - i,
    {
        proof {
            assert((i + 1) * batch_size == i * batch_size + batch_size) by (nonlinear_arith);
            assert((i + 1) * batch_size <= batches * batch_size) by (nonlinear_arith)
                requires
                    i + 1 <= batches,
            ;
        }
        let e_batch: usize = s_batch + batch_size;
        let d = vstd::slice::slice_subrange(data, s_batch, e_batch);
        let frame = serialize_batch(&mut buf, d);
        proof {
            assert(d@ == batch_of(data@, batch_size as nat, i as int));
            assert(frozen(frame) =~= frame_bytes(d@));
        }
        frames.push(frame);
        s_batch = e_batch;
        i = i + 1;
    }
    frames
}

/// Frames `data` in batches of `batch_size` bytes, as `serialize_batches`
/// does, and says how many bytes the frames have in all.
pub fn bincode_serialize(data: &[u8], batch_size: usize) -> (total: usize)
    requires
        batch_size > 0,
        batch_size + 4 <= isize::MAX,
        serialized_size(data@.len(), batch_size as nat) <= usize::MAX,
    ensures
        total == serialized_size(data@.len(), batch_size as nat),
{
    let frames = serialize_batches(data, batch_size);
    let ghost count = frames@.len();
    let mut total: usize = 0;
    let mut i: usize = 0;
    proof {
        let k = batch_size as nat;
        vstd::arithmetic::div_mod::lemma_fundamental_div_mod(data@.len() as int, k as int);
        vstd::arithmetic::div_mod::lemma_mod_bound(data@.len() as int, k as int);
        assert(count * k <= data@.len()) by (nonlinear_arith)
            requires
                data@.len() == k * count + (data@.len() as int % k as int),
                0 <= data@.len() as int % k as int,
        ;
        assert forall|j: int| 0 <= j < frames@.len() implies frozen(#[trigger] frames@[j]).len()
            == batch_size + 4 by {
            let b = batch_of(data@, k, j);
            assert((j + 1) * k == j * k + k) by (nonlinear_arith);
            assert((j + 1) * k <= count * k) by (nonlinear_arith)
                requires
                    j + 1 <= count,
            ;
            assert(0 <= j * k) by (nonlinear_arith)
                requires
                    0 <= j,
            ;
            assert(b.len() == k);
            lemma_le_bytes_len(b.len() % 0x1_0000_0000, 4);
        }
    }
    while i < frames.len()
        invariant
            i <= frames@.len(),
            frames@.len() == count,
            count == data@.len() / (batch_size as nat),
            count * (batch_size + 4) <= usize::MAX,
            total == i * (batch_size + 4),
            forall|j: int|
                0 <= j < frames@.len() ==> frozen(#[trigger] frames@[j]).len() == batch_size + 4,
        decreases frames@.len() - i,
    {
        proof {
            assert((i + 1) * (batch_size + 4) == i * (batch_size + 4) + (batch_size + 4))
                by (nonlinear_arith);
            assert((i + 1) * (batch_size + 4) <= count * (batch_size + 4)) by (nonlinear_arith)
                requires
                    i + 1 <= count,
            ;
        }
        let x = frozen_len(&frames[i]);
        total = total + x;
        i = i + 1;
    }
    total
}

} // verus!
