//! Little-endian encoding of the fixed-width integers that travel on the
//! control channel.
//!
//! The model is positional notation in base 256: `le_bytes(x, n)` is the
//! sequence of the `n` low-order digits of `x`, least significant first, and
//! `le_value(s)` is the number that a digit sequence denotes.

use vstd::prelude::*;

verus! {

/// 256 to the power `n`.
pub open spec fn pow256(n: nat) -> nat
    decreases n,
{
    if n == 0 {
        1
    } else {
        256 * pow256((n - 1) as nat)
    }
}

/// The `n` low-order base-256 digits of `x`, least significant first.
pub open spec fn le_bytes(x: nat, n: nat) -> Seq<u8>
    decreases n,
{
    if n == 0 {
        Seq::empty()
    } else {
        seq![(x % 256) as u8] + le_bytes(x / 256, (n - 1) as nat)
    }
}

/// The number whose base-256 digits, least significant first, are `s`.
pub open spec fn le_value(s: Seq<u8>) -> nat
    decreases s.len(),
{
    if s.len() == 0 {
        0
    } else {
        s[0] as nat + 256 * le_value(s.skip(1))
    }
}

/// The powers of 256 that bound the integer widths in use.
pub proof fn lemma_pow256_values()
    ensures
        pow256(0) == 1,
        pow256(1) == 0x100,
        pow256(2) == 0x1_0000,
        pow256(4) == 0x1_0000_0000,
        pow256(8) == 0x1_0000_0000_0000_0000,
{
    reveal_with_fuel(pow256, 9);
}

/// An encoding has exactly as many bytes as were asked for.
pub proof fn lemma_le_bytes_len(x: nat, n: nat)
    ensures
        le_bytes(x, n).len() == n,
    decreases n,
{
    if n > 0 {
        lemma_le_bytes_len(x / 256, (n - 1) as nat);
    }
}

/// A digit sequence of length `n` denotes a number below `256^n`.
pub proof fn lemma_le_value_bound(s: Seq<u8>)
    ensures
        le_value(s) < pow256(s.len()),
    decreases s.len(),
{
    if s.len() > 0 {
        lemma_le_value_bound(s.skip(1));
    }
}

/// Decoding undoes encoding for every number that fits in `n` bytes.
pub proof fn lemma_le_value_of_bytes(x: nat, n: nat)
    requires
        x < pow256(n),
    ensures
        le_value(le_bytes(x, n)) == x,
    decreases n,
{
    lemma_le_bytes_len(x, n);
    if n > 0 {
        let rest = le_bytes(x / 256, (n - 1) as nat);
        let all = le_bytes(x, n);
        assert(all.skip(1) =~= rest);
        assert(x / 256 < pow256((n - 1) as nat));
        lemma_le_value_of_bytes(x / 256, (n - 1) as nat);
    }
}

/// Encoding undoes decoding: the digits of a decoded number are the bytes it
/// was decoded from.
pub proof fn lemma_le_bytes_of_value(s: Seq<u8>)
    ensures
        le_bytes(le_value(s), s.len()) == s,
    decreases s.len(),
{
    if s.len() > 0 {
        let v = le_value(s);
        let tail = le_value(s.skip(1));
        assert(v % 256 == s[0] as nat && v / 256 == tail);
        lemma_le_bytes_of_value(s.skip(1));
        assert(le_bytes(v, s.len()) =~= s);
    } else {
        assert(le_bytes(le_value(s), s.len()) =~= s);
    }
}

/// Appends the `width`-byte little-endian encoding of `x` to `out`.
pub fn put_le(out: &mut Vec<u8>, x: u64, width: usize)
    ensures
        final(out)@ == old(out)@ + le_bytes(x as nat, width as nat),
{
    let mut rest: u64 = x;
    let mut i: usize = 0;
    proof {
        assert(out@ =~= old(out)@ + le_bytes(x as nat, 0));
    }
    while i < width
        invariant
            i <= width,
            out@.len() == old(out)@.len() + i,
            forall|n: nat| #[trigger]
                (old(out)@ + le_bytes(x as nat, i as nat + n)) == out@ + le_bytes(rest as nat, n),
        decreases width - i,
    {
        let digit: u8 = (rest % 256) as u8;
        let ghost before = out@;
        let ghost rest_before = rest;
        out.push(digit);
        rest = rest / 256;
        i = i + 1;
        proof {
            assert forall|n: nat| #[trigger]
                (old(out)@ + le_bytes(x as nat, i as nat + n)) == out@ + le_bytes(
                    rest as nat,
                    n,
                ) by {
                let m: nat = n + 1;
                assert(old(out)@ + le_bytes(x as nat, (i - 1) as nat + m) == before + le_bytes(
                    rest_before as nat,
                    m,
                ));
                assert((i - 1) as nat + m == i as nat + n);
                assert(le_bytes(rest_before as nat, m) == seq![digit] + le_bytes(rest as nat, n));
                assert(before + (seq![digit] + le_bytes(rest as nat, n)) =~= out@ + le_bytes(
                    rest as nat,
                    n,
                ));
            }
        }
    }
    proof {
        assert(old(out)@ + le_bytes(x as nat, i as nat + 0) == out@ + le_bytes(rest as nat, 0));
        assert(out@ + le_bytes(rest as nat, 0) =~= out@);
    }
}

/// Reads the little-endian number held in `width` bytes of `data` from `at` on.
pub fn get_le(data: &[u8], at: usize, width: usize) -> (x: u64)
    requires
        width <= 8,
        at + width <= data@.len(),
    ensures
        x as nat == le_value(data@.subrange(at as int, at + width)),
{
    let len: usize = data.len();
    let mut acc: u64 = 0;
    let mut i: usize = width;
    let ghost field = data@.subrange(at as int, at + width);
    proof {
        assert(field.skip(width as int) =~= Seq::<u8>::empty());
    }
    while i > 0
        invariant
            i <= width <= 8,
            at + width <= data@.len() == len,
            field == data@.subrange(at as int, at + width),
            acc as nat == le_value(field.skip(i as int)),
        decreases i,
    {
        i = i - 1;
        let byte: u8 = data[at + i];
        proof {
            let tail = field.skip(i as int);
            assert(tail.skip(1) =~= field.skip(i + 1));
            assert(tail[0] == byte);
            lemma_le_value_bound(tail);
            lemma_le_value_bound(tail.skip(1));
            lemma_pow256_monotone(tail.len(), 8);
            lemma_pow256_values();
        }
        acc = acc * 256 + byte as u64;
    }
    proof {
        assert(field.skip(0) =~= field);
    }
    acc
}

/// `pow256` grows with its exponent.
pub proof fn lemma_pow256_monotone(a: nat, b: nat)
    requires
        a <= b,
    ensures
        pow256(a) <= pow256(b),
        pow256(a) >= 1,
    decreases b,
{
    if a < b {
        lemma_pow256_monotone(a, (b - 1) as nat);
    } else if a > 0 {
        lemma_pow256_monotone((a - 1) as nat, (b - 1) as nat);
    }
}

/// Reads a 16-bit little-endian number at `at`.
pub fn get_u16_le(data: &[u8], at: usize) -> (x: u16)
    requires
        at + 2 <= data@.len(),
    ensures
        x as nat == le_value(data@.subrange(at as int, at + 2)),
{
    let v = get_le(data, at, 2);
    proof {
        lemma_le_value_bound(data@.subrange(at as int, at + 2));
        lemma_pow256_values();
    }
    v as u16
}

/// Reads a 32-bit little-endian number at `at`.
pub fn get_u32_le(data: &[u8], at: usize) -> (x: u32)
    requires
        at + 4 <= data@.len(),
    ensures
        x as nat == le_value(data@.subrange(at as int, at + 4)),
{
    let v = get_le(data, at, 4);
    proof {
        lemma_le_value_bound(data@.subrange(at as int, at + 4));
        lemma_pow256_values();
    }
    v as u32
}

/// Reads a 64-bit little-endian number at `at`.
pub fn get_u64_le(data: &[u8], at: usize) -> (x: u64)
    requires
        at + 8 <= data@.len(),
    ensures
        x as nat == le_value(data@.subrange(at as int, at + 8)),
{
    get_le(data, at, 8)
}

} // verus!
