//! The control channel: what the two endpoints tell each other before and
//! after the transfer, byte for byte, and in which order.

use crate::wire::{
    get_u16_le, get_u32_le, get_u64_le, le_bytes, le_value, lemma_le_bytes_len,
    lemma_le_bytes_of_value, lemma_le_value_bound, lemma_le_value_of_bytes, lemma_pow256_values,
    put_le,
};
use crate::handshake::{Role, Session, SessionState};
use crate::rdma::verbs::{IbvMr, QpState};
use vstd::prelude::*;

verus! {

/// A registered buffer as its peer sees it: address, length and remote key.
#[derive(Debug, Clone, Copy, PartialEq, Eq, Structural)]
pub struct MemInfo {
    pub addr: u64,
    pub len: usize,
    pub rkey: u32,
}

impl MemInfo {
    pub fn new(addr: u64, len: usize, rkey: u32) -> (m: MemInfo)
        ensures
            m == (MemInfo { addr, len, rkey }),
    {
        Self { addr, len, rkey }
    }
}

/// What a peer needs to know of a queue pair to reach it: its number, the
/// sequence number it starts with, and the link identifier of its port.
#[derive(Debug, Clone, Copy, PartialEq, Eq, Structural)]
pub struct QpInfo {
    pub qpn: u32,
    pub psn: u32,
    pub lid: u16,
}

/// Length of the message that carries a `QpInfo`.
pub const QP_INFO_LEN: usize = 10;

/// Length of the message that carries a `MemInfo`.
pub const MEM_INFO_LEN: usize = 16;

/// Length of the message that carries a buffer length alone.
pub const LENGTH_LEN: usize = 4;

/// Length of the message that carries an address and a remote key.
pub const ADDR_KEY_LEN: usize = 12;

/// The 10 bytes that carry `q`: number, sequence number, link identifier,
/// each little-endian.
pub open spec fn qp_info_bytes(q: QpInfo) -> Seq<u8> {
    le_bytes(q.qpn as nat, 4) + le_bytes(q.psn as nat, 4) + le_bytes(q.lid as nat, 2)
}

/// The `QpInfo` that the first 10 bytes of `s` carry.
pub open spec fn qp_info_of(s: Seq<u8>) -> QpInfo {
    QpInfo {
        qpn: le_value(s.subrange(0, 4)) as u32,
        psn: le_value(s.subrange(4, 8)) as u32,
        lid: le_value(s.subrange(8, 10)) as u16,
    }
}

/// The length as it travels: its low 32 bits.
pub open spec fn wire_len(len: usize) -> nat {
    (len as nat) % 0x1_0000_0000
}

/// The 16 bytes that carry `m`: address, length, remote key, each
/// little-endian. The length field has 32 bits and holds the low 32 bits of
/// the length.
pub open spec fn mem_info_bytes(m: MemInfo) -> Seq<u8> {
    le_bytes(m.addr as nat, 8) + le_bytes(wire_len(m.len), 4) + le_bytes(m.rkey as nat, 4)
}

/// The `MemInfo` that the first 16 bytes of `s` carry.
pub open spec fn mem_info_of(s: Seq<u8>) -> MemInfo {
    MemInfo {
        addr: le_value(s.subrange(0, 8)) as u64,
        len: le_value(s.subrange(8, 12)) as usize,
        rkey: le_value(s.subrange(12, 16)) as u32,
    }
}

/// The 4 bytes that carry a buffer length alone.
pub open spec fn length_bytes(len: usize) -> Seq<u8> {
    le_bytes(wire_len(len), 4)
}

/// The length that the first 4 bytes of `s` carry.
pub open spec fn length_of(s: Seq<u8>) -> usize {
    le_value(s.subrange(0, 4)) as usize
}

/// The 12 bytes that carry an address and a remote key.
pub open spec fn addr_key_bytes(addr: u64, rkey: u32) -> Seq<u8> {
    le_bytes(addr as nat, 8) + le_bytes(rkey as nat, 4)
}

/// The address and the remote key that the first 12 bytes of `s` carry.
pub open spec fn addr_key_of(s: Seq<u8>) -> (u64, u32) {
    (le_value(s.subrange(0, 8)) as u64, le_value(s.subrange(8, 12)) as u32)
}

/// A field of `n` bytes that sits at `at` in a message decodes to the number
/// it was encoded from.
proof fn lemma_field(pre: Seq<u8>, x: nat, n: nat, post: Seq<u8>)
    requires
        x < crate::wire::pow256(n),
    ensures
        le_value((pre + le_bytes(x, n) + post).subrange(pre.len() as int, (pre.len() + n) as int)) == x,
{
    lemma_le_bytes_len(x, n);
    lemma_le_value_of_bytes(x, n);
    assert((pre + le_bytes(x, n) + post).subrange(pre.len() as int, (pre.len() + n) as int) =~= le_bytes(
        x,
        n,
    ));
}

/// A queue-pair triple survives the wire: the message has 10 bytes, and
/// decoding it gives back every field.
pub proof fn lemma_qp_info_roundtrip(q: QpInfo)
    ensures
        qp_info_bytes(q).len() == QP_INFO_LEN,
        qp_info_of(qp_info_bytes(q)) == q,
{
    lemma_pow256_values();
    lemma_le_bytes_len(q.qpn as nat, 4);
    lemma_le_bytes_len(q.psn as nat, 4);
    lemma_le_bytes_len(q.lid as nat, 2);
    let e = Seq::<u8>::empty();
    let a = le_bytes(q.qpn as nat, 4);
    let b = le_bytes(q.psn as nat, 4);
    let c = le_bytes(q.lid as nat, 2);
    lemma_field(e, q.qpn as nat, 4, b + c);
    lemma_field(a, q.psn as nat, 4, c);
    lemma_field(a + b, q.lid as nat, 2, e);
    assert(e + a + (b + c) =~= qp_info_bytes(q));
    assert(a + b + c + e =~= qp_info_bytes(q));
}

/// A buffer descriptor survives the wire when its length fits the 32-bit
/// field: the message has 16 bytes, and decoding it gives back every field.
pub proof fn lemma_mem_info_roundtrip(m: MemInfo)
    requires
        m.len <= u32::MAX,
    ensures
        mem_info_bytes(m).len() == MEM_INFO_LEN,
        mem_info_of(mem_info_bytes(m)) == m,
{
    lemma_mem_info_wire(m);
}

/// What a buffer descriptor looks like after the wire, whatever its length:
/// address and key are kept, and the length is cut to its low 32 bits.
pub proof fn lemma_mem_info_wire(m: MemInfo)
    ensures
        mem_info_bytes(m).len() == MEM_INFO_LEN,
        mem_info_of(mem_info_bytes(m)) == (MemInfo {
            addr: m.addr,
            len: wire_len(m.len) as usize,
            rkey: m.rkey,
        }),
{
    lemma_pow256_values();
    let l = wire_len(m.len);
    lemma_le_bytes_len(m.addr as nat, 8);
    lemma_le_bytes_len(l, 4);
    lemma_le_bytes_len(m.rkey as nat, 4);
    let e = Seq::<u8>::empty();
    let a = le_bytes(m.addr as nat, 8);
    let b = le_bytes(l, 4);
    let c = le_bytes(m.rkey as nat, 4);
    lemma_field(e, m.addr as nat, 8, b + c);
    lemma_field(a, l, 4, c);
    lemma_field(a + b, m.rkey as nat, 4, e);
    assert(e + a + (b + c) =~= mem_info_bytes(m));
    assert(a + b + c + e =~= mem_info_bytes(m));
}

/// A length survives the wire when it fits 32 bits, and is cut to its low 32
/// bits otherwise.
pub proof fn lemma_length_roundtrip(len: usize)
    ensures
        length_bytes(len).len() == LENGTH_LEN,
        length_of(length_bytes(len)) == wire_len(len),
        len <= u32::MAX ==> length_of(length_bytes(len)) == len,
{
    lemma_pow256_values();
    let l = wire_len(len);
    lemma_le_bytes_len(l, 4);
    let e = Seq::<u8>::empty();
    lemma_field(e, l, 4, e);
    assert(e + le_bytes(l, 4) + e =~= length_bytes(len));
}

/// An address and a remote key survive the wire.
pub proof fn lemma_addr_key_roundtrip(addr: u64, rkey: u32)
    ensures
        addr_key_bytes(addr, rkey).len() == ADDR_KEY_LEN,
        addr_key_of(addr_key_bytes(addr, rkey)) == (addr, rkey),
{
    lemma_pow256_values();
    lemma_le_bytes_len(addr as nat, 8);
    lemma_le_bytes_len(rkey as nat, 4);
    let e = Seq::<u8>::empty();
    let a = le_bytes(addr as nat, 8);
    let b = le_bytes(rkey as nat, 4);
    lemma_field(e, addr as nat, 8, b);
    lemma_field(a, rkey as nat, 4, e);
    assert(e + a + b =~= addr_key_bytes(addr, rkey));
    assert(a + b + e =~= addr_key_bytes(addr, rkey));
}

/// The other direction of the round trip: re-encoding what 10 bytes decode
/// to gives the same 10 bytes.
pub proof fn lemma_qp_info_bytes_of(s: Seq<u8>)
    requires
        s.len() == QP_INFO_LEN,
    ensures
        qp_info_bytes(qp_info_of(s)) == s,
{
    lemma_pow256_values();
    let a = s.subrange(0, 4);
    let b = s.subrange(4, 8);
    let c = s.subrange(8, 10);
    lemma_le_value_bound(a);
    lemma_le_value_bound(b);
    lemma_le_value_bound(c);
    lemma_le_bytes_of_value(a);
    lemma_le_bytes_of_value(b);
    lemma_le_bytes_of_value(c);
    assert(a + b + c =~= s);
}

/// Re-encoding what 16 bytes decode to gives the same 16 bytes.
pub proof fn lemma_mem_info_bytes_of(s: Seq<u8>)
    requires
        s.len() == MEM_INFO_LEN,
    ensures
        mem_info_bytes(mem_info_of(s)) == s,
{
    lemma_pow256_values();
    let a = s.subrange(0, 8);
    let b = s.subrange(8, 12);
    let c = s.subrange(12, 16);
    lemma_le_value_bound(a);
    lemma_le_value_bound(b);
    lemma_le_value_bound(c);
    lemma_le_bytes_of_value(a);
    lemma_le_bytes_of_value(b);
    lemma_le_bytes_of_value(c);
    assert(a + b + c =~= s);
}

/// Appends the message that carries `q` to `out`.
pub fn put_qp_info(out: &mut Vec<u8>, q: &QpInfo)
    ensures
        final(out)@ == old(out)@ + qp_info_bytes(*q),
{
    put_le(out, q.qpn as u64, 4);
    put_le(out, q.psn as u64, 4);
    put_le(out, q.lid as u64, 2);
    proof {
        assert(out@ =~= old(out)@ + qp_info_bytes(*q));
    }
}

/// Appends the message that carries `m` to `out`.
pub fn put_mem_info(out: &mut Vec<u8>, m: &MemInfo)
    ensures
        final(out)@ == old(out)@ + mem_info_bytes(*m),
{
    put_le(out, m.addr, 8);
    put_le(out, m.len as u64 % 0x1_0000_0000, 4);
    put_le(out, m.rkey as u64, 4);
    proof {
        assert(out@ =~= old(out)@ + mem_info_bytes(*m));
    }
}

/// The message that carries `q`.
pub fn encode_qp_info(q: &QpInfo) -> (out: Vec<u8>)
    ensures
        out@ == qp_info_bytes(*q),
        out@.len() == QP_INFO_LEN,
{
    let mut out: Vec<u8> = Vec::new();
    put_qp_info(&mut out, q);
    proof {
        lemma_qp_info_roundtrip(*q);
        assert(out@ =~= qp_info_bytes(*q));
    }
    out
}

/// The message that carries `m`.
pub fn encode_mem_info(m: &MemInfo) -> (out: Vec<u8>)
    ensures
        out@ == mem_info_bytes(*m),
        out@.len() == MEM_INFO_LEN,
{
    let mut out: Vec<u8> = Vec::new();
    put_mem_info(&mut out, m);
    proof {
        lemma_mem_info_wire(*m);
        assert(out@ =~= mem_info_bytes(*m));
    }
    out
}

/// The message that carries a buffer length alone.
pub fn encode_length(len: usize) -> (out: Vec<u8>)
    ensures
        out@ == length_bytes(len),
        out@.len() == LENGTH_LEN,
{
    let mut out: Vec<u8> = Vec::new();
    put_le(&mut out, len as u64 % 0x1_0000_0000, 4);
    proof {
        lemma_length_roundtrip(len);
        assert(out@ =~= length_bytes(len));
    }
    out
}

/// The message that carries an address and a remote key.
pub fn encode_addr_key(addr: u64, rkey: u32) -> (out: Vec<u8>)
    ensures
        out@ == addr_key_bytes(addr, rkey),
        out@.len() == ADDR_KEY_LEN,
{
    let mut out: Vec<u8> = Vec::new();
    put_le(&mut out, addr, 8);
    put_le(&mut out, rkey as u64, 4);
    proof {
        lemma_addr_key_roundtrip(addr, rkey);
        assert(out@ =~= addr_key_bytes(addr, rkey));
    }
    out
}

/// Reads the queue-pair triple that `data` carries from `at` on.
pub fn get_qp_info(data: &[u8], at: usize) -> (q: QpInfo)
    requires
        at + QP_INFO_LEN <= data@.len(),
    ensures
        q == qp_info_of(data@.subrange(at as int, at + QP_INFO_LEN)),
{
    let ghost s = data@.subrange(at as int, at + QP_INFO_LEN);
    let size: usize = data.len();
    proof {
        assert(at + QP_INFO_LEN <= size);
        assert(s.subrange(0, 4) =~= data@.subrange(at as int, at + 4));
        assert(s.subrange(4, 8) =~= data@.subrange(at + 4, at + 4 + 4));
        assert(s.subrange(8, 10) =~= data@.subrange(at + 8, at + 8 + 2));
    }
    let qpn = get_u32_le(data, at);
    let psn = get_u32_le(data, at + 4);
    let lid = get_u16_le(data, at + 8);
    QpInfo { qpn, psn, lid }
}

/// Reads the buffer descriptor that `data` carries from `at` on.
pub fn get_mem_info(data: &[u8], at: usize) -> (m: MemInfo)
    requires
        at + MEM_INFO_LEN <= data@.len(),
    ensures
        m == mem_info_of(data@.subrange(at as int, at + MEM_INFO_LEN)),
{
    let ghost s = data@.subrange(at as int, at + MEM_INFO_LEN);
    let size: usize = data.len();
    proof {
        assert(at + MEM_INFO_LEN <= size);
        assert(s.subrange(0, 8) =~= data@.subrange(at as int, at + 8));
        assert(s.subrange(8, 12) =~= data@.subrange(at + 8, at + 8 + 4));
        assert(s.subrange(12, 16) =~= data@.subrange(at + 12, at + 12 + 4));
    }
    let addr = get_u64_le(data, at);
    let len = get_u32_le(data, at + 8);
    let rkey = get_u32_le(data, at + 12);
    MemInfo { addr, len: len as usize, rkey }
}

/// Decodes a queue-pair triple from a message of exactly 10 bytes.
pub fn decode_qp_info(data: &[u8]) -> (r: Option<QpInfo>)
    ensures
        data@.len() == QP_INFO_LEN ==> r == Some(qp_info_of(data@)),
        data@.len() != QP_INFO_LEN ==> r is None,
{
    if data.len() != QP_INFO_LEN {
        return None;
    }
    proof {
        assert(data@.subrange(0, 0 + QP_INFO_LEN) =~= data@);
    }
    Some(get_qp_info(data, 0))
}

/// Decodes a buffer descriptor from a message of exactly 16 bytes.
pub fn decode_mem_info(data: &[u8]) -> (r: Option<MemInfo>)
    ensures
        data@.len() == MEM_INFO_LEN ==> r == Some(mem_info_of(data@)),
        data@.len() != MEM_INFO_LEN ==> r is None,
{
    if data.len() != MEM_INFO_LEN {
        return None;
    }
    proof {
        assert(data@.subrange(0, 0 + MEM_INFO_LEN) =~= data@);
    }
    Some(get_mem_info(data, 0))
}

/// Decodes a buffer length from a message of exactly 4 bytes.
pub fn decode_length(data: &[u8]) -> (r: Option<usize>)
    ensures
        data@.len() == LENGTH_LEN ==> r == Some(length_of(data@)),
        data@.len() != LENGTH_LEN ==> r is None,
{
    if data.len() != LENGTH_LEN {
        return None;
    }
    let len = get_u32_le(data, 0);
    Some(len as usize)
}

/// Decodes an address and a remote key from a message of exactly 12 bytes.
pub fn decode_addr_key(data: &[u8]) -> (r: Option<(u64, u32)>)
    ensures
        data@.len() == ADDR_KEY_LEN ==> r == Some(addr_key_of(data@)),
        data@.len() != ADDR_KEY_LEN ==> r is None,
{
    if data.len() != ADDR_KEY_LEN {
        return None;
    }
    let addr = get_u64_le(data, 0);
    let rkey = get_u32_le(data, 8);
    Some((addr, rkey))
}

/// Length of the disconnect message.
pub const DISCONNECT_LEN: usize = 4;

/// The value that ends a session on this control channel.
pub const DISCONNECT_SIGNAL: u32 = 42;

/// Why what arrived in place of the disconnect message was not accepted.
#[derive(Debug, Clone, Copy, PartialEq, Eq, Structural)]
pub enum DisconnectError {
    /// The stream did not deliver exactly four bytes.
    WrongLength { got: usize },
    /// Four bytes arrived, and they carry another value than the signal.
    Violation { value: u32 },
}

/// The 4 bytes that carry the disconnect signal `signal`.
pub open spec fn disconnect_bytes(signal: u32) -> Seq<u8> {
    le_bytes(signal as nat, 4)
}

/// The verdict on `s`, received where the disconnect signal `signal` is
/// expected: accepted only if it is four bytes long and carries `signal`.
pub open spec fn disconnect_verdict(s: Seq<u8>, signal: u32) -> Result<(), DisconnectError> {
    if s.len() != DISCONNECT_LEN {
        Err(DisconnectError::WrongLength { got: s.len() as usize })
    } else if le_value(s) != signal {
        Err(DisconnectError::Violation { value: le_value(s) as u32 })
    } else {
        Ok(())
    }
}

/// The disconnect signal survives the wire, and nothing else passes for it:
/// of all byte strings only the encoding of `signal` is accepted.
pub proof fn lemma_disconnect_roundtrip(s: Seq<u8>, signal: u32)
    ensures
        disconnect_bytes(signal).len() == DISCONNECT_LEN,
        disconnect_verdict(disconnect_bytes(signal), signal) is Ok,
        disconnect_verdict(s, signal) is Ok <==> s == disconnect_bytes(signal),
        s.len() == DISCONNECT_LEN && s != disconnect_bytes(signal) ==> disconnect_verdict(
            s,
            signal,
        ) is Err && disconnect_verdict(s, signal)->Err_0 is Violation,
{
    lemma_pow256_values();
    lemma_le_bytes_len(signal as nat, 4);
    lemma_le_value_of_bytes(signal as nat, 4);
    if s.len() == DISCONNECT_LEN {
        lemma_le_bytes_of_value(s);
    }
}

/// The message that carries the disconnect signal `signal`.
pub fn disconnect_frame(signal: u32) -> (out: Vec<u8>)
    ensures
        out@ == disconnect_bytes(signal),
        out@.len() == DISCONNECT_LEN,
{
    let mut out: Vec<u8> = Vec::new();
    put_le(&mut out, signal as u64, 4);
    proof {
        lemma_le_bytes_len(signal as nat, 4);
        assert(out@ =~= disconnect_bytes(signal));
    }
    out
}

/// Judges what arrived where the disconnect signal `signal` is expected.
pub fn check_disconnect(data: &[u8], signal: u32) -> (r: Result<(), DisconnectError>)
    ensures
        r == disconnect_verdict(data@, signal),
{
    if data.len() != DISCONNECT_LEN {
        return Err(DisconnectError::WrongLength { got: data.len() });
    }
    proof {
        assert(data@.subrange(0, 4) =~= data@);
    }
    let value = get_u32_le(data, 0);
    if value != signal {
        Err(DisconnectError::Violation { value })
    } else {
        Ok(())
    }
}

/// What the initiating side writes on the control channel once its transfer
/// has drained: the disconnect signal.
pub fn client_disconnect() -> (out: Vec<u8>)
    ensures
        out@ == disconnect_bytes(DISCONNECT_SIGNAL),
        out@.len() == DISCONNECT_LEN,
{
    disconnect_frame(DISCONNECT_SIGNAL)
}

/// Judges what the passive side read from the control channel at the end of
/// the session. Only the four bytes of the disconnect signal are accepted.
pub fn server_disconnect(data: &[u8]) -> (r: Result<(), DisconnectError>)
    ensures
        r == disconnect_verdict(data@, DISCONNECT_SIGNAL),
{
    check_disconnect(data, DISCONNECT_SIGNAL)
}

/// Why a frame could not be completed.
#[derive(Debug, Clone, Copy, PartialEq, Eq, Structural)]
pub enum FrameError {
    /// The stream ended while `missing` bytes of the frame were outstanding.
    Closed { missing: usize },
    /// A read delivered `extra` bytes more than the frame had room for.
    TooLong { extra: usize },
}

/// The abstract state of a frame reader: how many bytes the frame has, and
/// the bytes gathered so far.
pub struct FrameView {
    pub need: nat,
    pub data: Seq<u8>,
}

impl FrameView {
    /// Bytes still outstanding.
    pub open spec fn remaining(self) -> nat {
        (self.need - self.data.len()) as nat
    }

    /// Whether the frame is complete.
    pub open spec fn complete(self) -> bool {
        self.data.len() == self.need
    }

    /// What holds of every reader: it never holds more than the frame.
    pub open spec fn wf(self) -> bool {
        self.data.len() <= self.need
    }

    /// The state after one read delivered `chunk`. A read of no bytes while
    /// bytes are outstanding means the stream has ended; a read of more bytes
    /// than are outstanding does not belong to this frame.
    pub open spec fn feed(self, chunk: Seq<u8>) -> Result<FrameView, FrameError> {
        if chunk.len() > self.remaining() {
            Err(FrameError::TooLong { extra: (chunk.len() - self.remaining()) as usize })
        } else if chunk.len() == 0 && self.remaining() > 0 {
            Err(FrameError::Closed { missing: self.remaining() as usize })
        } else {
            Ok(FrameView { need: self.need, data: self.data + chunk })
        }
    }
}

/// The pieces of a stream, joined in order.
pub open spec fn joined(pieces: Seq<Seq<u8>>) -> Seq<u8>
    decreases pieces.len(),
{
    if pieces.len() == 0 {
        Seq::empty()
    } else {
        pieces[0] + joined(pieces.skip(1))
    }
}

impl FrameView {
    /// The state after a run of reads delivered `pieces`, one after the
    /// other; the first failure ends the run.
    pub open spec fn feed_all(self, pieces: Seq<Seq<u8>>) -> Result<FrameView, FrameError>
        decreases pieces.len(),
    {
        if pieces.len() == 0 {
            Ok(self)
        } else {
            match self.feed(pieces[0]) {
                Err(e) => Err(e),
                Ok(v) => v.feed_all(pieces.skip(1)),
            }
        }
    }
}

/// However the stream cuts a frame into reads, the reader puts it together
/// again: reads that each deliver something, and together no more than is
/// outstanding, are all accepted, and what is gathered afterwards is what
/// was gathered before followed by the pieces in order.
pub proof fn lemma_reassembly(v: FrameView, pieces: Seq<Seq<u8>>)
    requires
        v.wf(),
        forall|i: int| 0 <= i < pieces.len() ==> pieces[i].len() > 0,
        joined(pieces).len() <= v.remaining(),
    ensures
        v.feed_all(pieces) == Ok::<FrameView, FrameError>(
            FrameView { need: v.need, data: v.data + joined(pieces) },
        ),
        joined(pieces).len() == v.remaining() ==> v.feed_all(pieces)->Ok_0.complete(),
    decreases pieces.len(),
{
    if pieces.len() == 0 {
        assert(v.data + joined(pieces) =~= v.data);
    } else {
        let first = pieces[0];
        let rest = pieces.skip(1);
        let w = FrameView { need: v.need, data: v.data + first };
        assert(v.feed(first) == Ok::<FrameView, FrameError>(w));
        assert forall|i: int| 0 <= i < rest.len() implies rest[i].len() > 0 by {
            assert(rest[i] == pieces[i + 1]);
        }
        lemma_reassembly(w, rest);
        assert(w.data + joined(rest) =~= v.data + joined(pieces));
    }
}

/// Gathers a frame of known length from a stream that delivers it in pieces
/// of any size.
#[derive(Debug)]
pub struct FrameReader {
    need: usize,
    buf: Vec<u8>,
}

impl View for FrameReader {
    type V = FrameView;

    closed spec fn view(&self) -> FrameView {
        FrameView { need: self.need as nat, data: self.buf@ }
    }
}

impl FrameReader {
    /// A reader for a frame of `need` bytes, with nothing gathered.
    pub fn new(need: usize) -> (r: FrameReader)
        ensures
            r@ == (FrameView { need: need as nat, data: Seq::empty() }),
            r@.wf(),
    {
        FrameReader { need, buf: Vec::new() }
    }

    /// Bytes still outstanding: the most that the next read may deliver.
    pub fn remaining(&self) -> (n: usize)
        requires
            self@.wf(),
        ensures
            n == self@.remaining(),
    {
        self.need - self.buf.len()
    }

    /// Whether the frame is complete.
    pub fn is_complete(&self) -> (b: bool)
        ensures
            b == self@.complete(),
    {
        self.buf.len() == self.need
    }

    /// The bytes gathered so far.
    pub fn bytes(&self) -> (b: &[u8])
        ensures
            b@ == self@.data,
    {
        self.buf.as_slice()
    }

    /// Takes in what one read delivered. On success the bytes are appended
    /// and the answer says whether the frame is now complete; on failure
    /// nothing changes.
    pub fn feed(&mut self, chunk: &[u8]) -> (r: Result<bool, FrameError>)
        requires
            old(self)@.wf(),
        ensures
            final(self)@.wf(),
            match old(self)@.feed(chunk@) {
                Ok(v) => final(self)@ == v && r == Ok::<bool, FrameError>(v.complete()),
                Err(e) => final(self)@ == old(self)@ && r == Err::<bool, FrameError>(e),
            },
    {
        let room: usize = self.need - self.buf.len();
        if chunk.len() > room {
            return Err(FrameError::TooLong { extra: chunk.len() - room });
        }
        if chunk.len() == 0 && room > 0 {
            return Err(FrameError::Closed { missing: room });
        }
        let mut j: usize = 0;
        while j < chunk.len()
            invariant
                j <= chunk@.len(),
                self.need == old(self).need,
                old(self).buf@.len() + chunk@.len() <= self.need,
                self.buf@ == old(self).buf@ + chunk@.subrange(0, j as int),
            decreases chunk@.len() - j,
        {
            self.buf.push(chunk[j]);
            j = j + 1;
            proof {
                assert(self.buf@ =~= old(self).buf@ + chunk@.subrange(0, j as int));
            }
        }
        proof {
            assert(chunk@.subrange(0, j as int) =~= chunk@);
        }
        let done = self.buf.len() == self.need;
        Ok(done)
    }
}

/// Opens the symmetric handshake for a freshly created queue pair with
/// number `qpn`, on a port with link identifier `my_lid`, announcing the
/// buffer at `buf_addr` of `buf_len` bytes registered as `mr`. The sequence
/// number is drawn at random. The session that comes back is at the start of
/// the script of `Role::Peer`; once it is done, its `remote` is the peer's
/// buffer.
pub fn connect(qpn: u32, my_lid: u16, buf_addr: u64, buf_len: usize, mr: &IbvMr) -> (s: Session)
    ensures
        s.wf(),
        s@ == SessionState::initial(
            Role::Peer,
            QpState::Reset,
            QpInfo { qpn, psn: s@.local.psn, lid: my_lid },
            Some(MemInfo { addr: buf_addr, len: buf_len, rkey: mr.rkey }),
        ),
{
    match Session::start(Role::Peer, qpn, my_lid, Some(MemInfo::new(buf_addr, buf_len, mr.rkey()))) {
        Ok(s) => s,
        Err(_) => vstd::pervasive::unreached(),
    }
}

} // verus!
