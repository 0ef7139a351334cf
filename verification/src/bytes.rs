//! Numbers as little-endian byte strings.
//!
//! Pointers and values cross the process boundary as flat bytes, least
//! significant byte first, which is the byte order of every target this
//! library addresses.

use vstd::prelude::*;

verus! {

/// `256` to the power `n`: how many different numbers `n` bytes can spell.
pub open spec fn span(n: nat) -> nat
    decreases n,
{
    if n == 0 {
        1
    } else {
        256 * span((n - 1) as nat)
    }
}

/// The number that `bytes` spell, least significant byte first.
pub open spec fn le_value(bytes: Seq<u8>) -> nat
    decreases bytes.len(),
{
    if bytes.len() == 0 {
        0
    } else {
        bytes[0] as nat + 256 * le_value(bytes.skip(1))
    }
}

/// The `len` low bytes of `value`, least significant byte first.
pub open spec fn le_bytes(value: nat, len: nat) -> Seq<u8>
    decreases len,
{
    if len == 0 {
        Seq::empty()
    } else {
        seq![(value % 256) as u8] + le_bytes(value / 256, (len - 1) as nat)
    }
}

/// The spans of the widths that occur in practice.
pub proof fn lemma_span_values()
    ensures
        span(0) == 1,
        span(1) == 0x100,
        span(2) == 0x1_0000,
        span(3) == 0x100_0000,
        span(4) == 0x1_0000_0000,
        span(5) == 0x100_0000_0000,
        span(6) == 0x1_0000_0000_0000,
        span(7) == 0x100_0000_0000_0000,
        span(8) == 0x1_0000_0000_0000_0000,
{
    reveal_with_fuel(span, 9);
}

/// More bytes never spell fewer numbers.
pub proof fn lemma_span_monotonic(a: nat, b: nat)
    requires
        a <= b,
    ensures
        1 <= span(a) <= span(b),
    decreases b,
{
    if b == 0 {
    } else if a == b {
        lemma_span_monotonic(0, (b - 1) as nat);
    } else {
        lemma_span_monotonic(a, (b - 1) as nat);
    }
}

/// A byte string spells a number below the span of its length.
pub proof fn lemma_le_value_bound(bytes: Seq<u8>)
    ensures
        le_value(bytes) < span(bytes.len()),
    decreases bytes.len(),
{
    if bytes.len() > 0 {
        lemma_le_value_bound(bytes.skip(1));
    }
}

/// `le_bytes` yields as many bytes as it is asked for.
pub proof fn lemma_le_bytes_len(value: nat, len: nat)
    ensures
        le_bytes(value, len).len() == len,
    decreases len,
{
    if len > 0 {
        lemma_le_bytes_len(value / 256, (len - 1) as nat);
    }
}

/// Spelling a number that fits and reading it back gives the number.
pub proof fn lemma_le_roundtrip(value: nat, len: nat)
    requires
        value < span(len),
    ensures
        le_bytes(value, len).len() == len,
        le_value(le_bytes(value, len)) == value,
    decreases len,
{
    lemma_le_bytes_len(value, len);
    if len > 0 {
        let rest = le_bytes(value / 256, (len - 1) as nat);
        let all = le_bytes(value, len);
        lemma_le_roundtrip(value / 256, (len - 1) as nat);
        assert(all.skip(1) =~= rest);
        assert(all[0] == (value % 256) as u8);
    }
}

/// Reads the number that at most eight bytes spell.
pub fn decode_le(bytes: &[u8]) -> (value: u64)
    requires
        bytes@.len() <= 8,
    ensures
        value == le_value(bytes@),
{
    let mut i: usize = bytes.len();
    let mut acc: u64 = 0;
    assert(bytes@.skip(i as int) =~= Seq::<u8>::empty());
    while i > 0
        invariant
            i <= bytes@.len() <= 8,
            acc == le_value(bytes@.skip(i as int)),
        decreases i,
    {
        i = i - 1;
        proof {
            let tail = bytes@.skip(i as int);
            let rest = bytes@.skip(i + 1);
            assert(tail.skip(1) =~= rest);
            assert(tail[0] == bytes@[i as int]);
            lemma_le_value_bound(rest);
            lemma_span_monotonic(rest.len(), 7);
            lemma_span_values();
        }
        acc = acc * 256 + bytes[i] as u64;
    }
    assert(bytes@.skip(0) =~= bytes@);
    acc
}

/// Spells the `len` low bytes of `value`.
pub fn encode_le(value: u64, len: usize) -> (bytes: Vec<u8>)
    ensures
        bytes@ == le_bytes(value as nat, len as nat),
{
    let mut out: Vec<u8> = Vec::new();
    let mut rest: u64 = value;
    let mut i: usize = 0;
    assert(out@ + le_bytes(rest as nat, len as nat) =~= le_bytes(value as nat, len as nat));
    while i < len
        invariant
            i <= len,
            out@.len() == i,
            out@ + le_bytes(rest as nat, (len - i) as nat) == le_bytes(value as nat, len as nat),
        decreases len - i,
    {
        let ghost before = out@;
        let ghost tail = le_bytes((rest / 256) as nat, (len - i - 1) as nat);
        let low: u8 = (rest % 256) as u8;
        out.push(low);
        proof {
            assert(le_bytes(rest as nat, (len - i) as nat) == seq![low] + tail);
            assert(before.push(low) + tail =~= before + (seq![low] + tail));
        }
        rest = rest / 256;
        i = i + 1;
    }
    assert(out@ + Seq::<u8>::empty() =~= out@);
    out
}

} // verus!
