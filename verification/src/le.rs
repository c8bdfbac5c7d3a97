//! Numbers as base-256 digits, least significant byte first.

use vstd::prelude::*;

verus! {

/// The number that `bytes` spell in base 256, least significant byte first.
pub open spec fn le_value(bytes: Seq<u8>) -> nat
    decreases bytes.len(),
{
    if bytes.len() == 0 {
        0
    } else {
        bytes[0] as nat + 256 * le_value(bytes.drop_first())
    }
}

/// The `width` low base-256 digits of `value`, least significant first.
pub open spec fn le_bytes(value: nat, width: nat) -> Seq<u8>
    decreases width,
{
    if width == 0 {
        Seq::empty()
    } else {
        seq![(value % 256) as u8] + le_bytes(value / 256, (width - 1) as nat)
    }
}

/// 256 to the power `width`: the first number that `width` bytes cannot spell.
pub open spec fn le_limit(width: nat) -> nat
    decreases width,
{
    if width == 0 {
        1
    } else {
        256 * le_limit((width - 1) as nat)
    }
}

/// Eight bytes spell exactly the numbers that a `u64` holds.
pub proof fn lemma_le_limit_u64()
    ensures
        le_limit(8) == u64::MAX + 1,
{
    reveal_with_fuel(le_limit, 9);
}

/// `le_bytes` gives as many bytes as it is asked for.
pub proof fn lemma_le_bytes_len(value: nat, width: nat)
    ensures
        le_bytes(value, width).len() == width,
    decreases width,
{
    if width > 0 {
        lemma_le_bytes_len(value / 256, (width - 1) as nat);
    }
}

/// What bytes spell stays under the limit of their number.
pub proof fn lemma_le_value_bound(bytes: Seq<u8>)
    ensures
        le_value(bytes) < le_limit(bytes.len()),
    decreases bytes.len(),
{
    if bytes.len() > 0 {
        lemma_le_value_bound(bytes.drop_first());
    }
}

/// Spelling a number that fits and reading it back gives the number.
pub proof fn lemma_le_value_of_bytes(value: nat, width: nat)
    requires
        value < le_limit(width),
    ensures
        le_value(le_bytes(value, width)) == value,
    decreases width,
{
    if width > 0 {
        let rest = le_bytes(value / 256, (width - 1) as nat);
        lemma_le_value_of_bytes(value / 256, (width - 1) as nat);
        assert(le_bytes(value, width).drop_first() =~= rest);
    }
}

/// Reading bytes and spelling the number at their width gives the bytes.
pub proof fn lemma_le_bytes_of_value(bytes: Seq<u8>)
    ensures
        le_bytes(le_value(bytes), bytes.len()) == bytes,
    decreases bytes.len(),
{
    if bytes.len() > 0 {
        let rest = bytes.drop_first();
        lemma_le_bytes_of_value(rest);
        let value = le_value(bytes);
        assert(value % 256 == bytes[0] as nat);
        assert(value / 256 == le_value(rest));
        assert(le_bytes(value, bytes.len()) =~= bytes);
    } else {
        assert(le_bytes(le_value(bytes), bytes.len()) =~= bytes);
    }
}

/// A wider limit is not smaller.
pub proof fn lemma_le_limit_monotonic(narrow: nat, wide: nat)
    requires
        narrow <= wide,
    ensures
        le_limit(narrow) <= le_limit(wide),
    decreases wide,
{
    if narrow < wide {
        lemma_le_limit_monotonic(narrow, (wide - 1) as nat);
    }
}

/// Reads the eight bytes of `data` from `start` on as a number.
pub(crate) fn read_u64_le(data: &[u8], start: usize) -> (value: u64)
    requires
        start + 8 <= data@.len(),
    ensures
        value == le_value(data@.subrange(start as int, start + 8)),
{
    let len: usize = data.len();
    let mut value: u64 = 0;
    let mut i: usize = 8;
    while i > 0
        invariant
            i <= 8,
            start + 8 <= len == data@.len(),
            value == le_value(data@.subrange(start + i, start + 8)),
        decreases i,
    {
        i -= 1;
        proof {
            let tail = data@.subrange(start + i + 1, start + 8);
            let read = data@.subrange(start + i, start + 8);
            assert(read.drop_first() =~= tail);
            lemma_le_value_bound(tail);
            lemma_le_limit_monotonic(tail.len(), 7);
            reveal_with_fuel(le_limit, 8);
        }
        value = value * 256 + data[start + i] as u64;
    }
    value
}

/// Appends the eight bytes that spell `value` to `out`.
pub(crate) fn push_u64_le(out: &mut Vec<u8>, value: u64)
    ensures
        final(out)@ == old(out)@ + le_bytes(value as nat, 8),
{
    let mut rest: u64 = value;
    let mut i: usize = 0;
    while i < 8
        invariant
            i <= 8,
            old(out)@ + le_bytes(value as nat, 8) == out@ + le_bytes(rest as nat, (8 - i) as nat),
        decreases 8 - i,
    {
        proof {
            let digit = seq![(rest % 256) as u8];
            let higher = le_bytes((rest / 256) as nat, (8 - i - 1) as nat);
            assert(le_bytes(rest as nat, (8 - i) as nat) == digit + higher);
            assert(out@ + (digit + higher) =~= out@.push((rest % 256) as u8) + higher);
        }
        out.push((rest % 256) as u8);
        rest = rest / 256;
        i += 1;
    }
    assert(out@ + le_bytes(rest as nat, 0) =~= out@);
}

} // verus!
