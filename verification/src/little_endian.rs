//! Little-endian integers: what a run of bytes spells, and how a number is
//! laid out in a fixed number of bytes.

use vstd::prelude::*;

verus! {

/// 256 raised to the power `width`: how many numbers `width` bytes can spell.
pub open spec fn span(width: nat) -> nat
    decreases width,
{
    if width == 0 {
        1
    } else {
        256 * span((width - 1) as nat)
    }
}

/// The number that `bytes` spell, least significant byte first.
pub open spec fn le_value(bytes: Seq<u8>) -> nat
    decreases bytes.len(),
{
    if bytes.len() == 0 {
        0
    } else {
        bytes[0] as nat + 256 * le_value(bytes.drop_first())
    }
}

/// The `width` low-order bytes of `value`, least significant byte first.
pub open spec fn le_bytes(value: nat, width: nat) -> Seq<u8>
    decreases width,
{
    if width == 0 {
        Seq::empty()
    } else {
        seq![(value % 256) as u8] + le_bytes(value / 256, (width - 1) as nat)
    }
}

/// The unsigned 64-bit pattern of a signed number, in two's complement.
pub open spec fn twos_complement(value: i64) -> nat {
    if value >= 0 {
        value as nat
    } else {
        (value + 0x1_0000_0000_0000_0000) as nat
    }
}

/// The signed number that an unsigned 64-bit pattern stands for.
pub open spec fn from_twos_complement(pattern: nat) -> i64 {
    if pattern < 0x8000_0000_0000_0000 {
        pattern as i64
    } else {
        (pattern - 0x1_0000_0000_0000_0000) as i64
    }
}

/// Eight bytes span the range of `u64`.
pub proof fn lemma_span_eight()
    ensures
        span(8) == 0x1_0000_0000_0000_0000,
{
    reveal_with_fuel(span, 9);
}

/// A longer run of bytes spans at least as much.
pub proof fn lemma_span_grows(narrow: nat, wide: nat)
    requires
        narrow <= wide,
    ensures
        span(narrow) <= span(wide),
    decreases wide,
{
    if narrow < wide {
        lemma_span_grows(narrow, (wide - 1) as nat);
    }
}

/// `le_bytes` yields exactly `width` bytes.
pub proof fn lemma_le_bytes_len(value: nat, width: nat)
    ensures
        le_bytes(value, width).len() == width,
    decreases width,
{
    if width > 0 {
        lemma_le_bytes_len(value / 256, (width - 1) as nat);
    }
}

/// A run of bytes spells a number below the span of its length.
pub proof fn lemma_le_value_bound(bytes: Seq<u8>)
    ensures
        le_value(bytes) < span(bytes.len()),
    decreases bytes.len(),
{
    if bytes.len() > 0 {
        lemma_le_value_bound(bytes.drop_first());
    }
}

/// Reading back the bytes of a number that fits gives the number.
pub proof fn lemma_le_value_of_le_bytes(value: nat, width: nat)
    requires
        value < span(width),
    ensures
        le_value(le_bytes(value, width)) == value,
    decreases width,
{
    if width > 0 {
        let rest = le_bytes(value / 256, (width - 1) as nat);
        lemma_le_value_of_le_bytes(value / 256, (width - 1) as nat);
        assert(le_bytes(value, width).drop_first() =~= rest);
    }
}

/// Two's complement loses nothing: the pattern fits 64 bits and stands for
/// the number it was made from.
pub proof fn lemma_twos_complement_round_trip(value: i64)
    ensures
        twos_complement(value) < 0x1_0000_0000_0000_0000,
        from_twos_complement(twos_complement(value)) == value,
{
}

/// Reads the unsigned number spelt by the eight bytes of `src` at `offset`.
pub fn read_u64_le(src: &[u8], offset: usize) -> (value: u64)
    requires
        offset + 8 <= src@.len(),
    ensures
        value as nat == le_value(src@.subrange(offset as int, offset + 8)),
{
    let ghost field = src@.subrange(offset as int, offset + 8);
    let mut value: u64 = 0;
    let mut i: usize = 8;
    while i > 0
        invariant
            i <= 8,
            offset + 8 <= src.len(),
            field == src@.subrange(offset as int, offset + 8),
            value as nat == le_value(field.subrange(i as int, 8)),
            (value as nat) < span((8 - i) as nat),
        decreases i,
    {
        i = i - 1;
        let byte: u8 = src[offset + i];
        proof {
            lemma_span_eight();
            let upper = field.subrange(i as int, 8);
            assert(upper.drop_first() =~= field.subrange(i + 1, 8));
            assert(upper[0] == byte);
            lemma_le_value_bound(upper);
            assert(span((8 - i) as nat) <= span(8)) by {
                lemma_span_grows((8 - i) as nat, 8);
            }
        }
        value = value * 256 + byte as u64;
    }
    proof {
        assert(field.subrange(0, 8) =~= field);
    }
    value
}

/// Writes `value` into the eight bytes of `dst` at `offset`, and nothing else.
pub fn write_u64_le(dst: &mut [u8], offset: usize, value: u64)
    requires
        offset + 8 <= old(dst)@.len(),
    ensures
        final(dst)@.len() == old(dst)@.len(),
        final(dst)@ == old(dst)@.subrange(0, offset as int) + le_bytes(value as nat, 8) + old(
            dst,
        )@.subrange(offset + 8, old(dst)@.len() as int),
{
    let ghost target = le_bytes(value as nat, 8);
    let mut rest: u64 = value;
    let mut i: usize = 0;
    while i < 8
        invariant
            i <= 8,
            offset + 8 <= dst.len(),
            dst@.len() == old(dst)@.len(),
            target == le_bytes(value as nat, 8),
            target == dst@.subrange(offset as int, offset + i) + le_bytes(
                rest as nat,
                (8 - i) as nat,
            ),
            forall|j: int|
                0 <= j < dst@.len() && !(offset <= j < offset + i) ==> dst@[j] == old(dst)@[j],
        decreases 8 - i,
    {
        let ghost before = dst@;
        let byte: u8 = (rest % 256) as u8;
        dst[offset + i] = byte;
        proof {
            let tail = le_bytes((rest / 256) as nat, (8 - i - 1) as nat);
            assert(le_bytes(rest as nat, (8 - i) as nat) == seq![byte] + tail);
            assert(dst@.subrange(offset as int, offset + i + 1) =~= before.subrange(
                offset as int,
                offset + i,
            ) + seq![byte]);
            assert(target =~= dst@.subrange(offset as int, offset + i + 1) + tail);
        }
        rest = rest / 256;
        i = i + 1;
    }
    proof {
        lemma_le_bytes_len(value as nat, 8);
        assert(le_bytes(rest as nat, 0) =~= Seq::<u8>::empty());
        assert(dst@.subrange(offset as int, offset + 8) =~= target);
        assert(dst@ =~= old(dst)@.subrange(0, offset as int) + target + old(dst)@.subrange(
            offset + 8,
            old(dst)@.len() as int,
        ));
    }
}

/// Reads the signed number spelt in two's complement by the eight bytes of
/// `src` at `offset`.
pub fn read_i64_le(src: &[u8], offset: usize) -> (value: i64)
    requires
        offset + 8 <= src@.len(),
    ensures
        value == from_twos_complement(le_value(src@.subrange(offset as int, offset + 8))),
{
    let pattern: u64 = read_u64_le(src, offset);
    if pattern < 0x8000_0000_0000_0000 {
        pattern as i64
    } else {
        let low: u64 = pattern - 0x8000_0000_0000_0000;
        low as i64 + i64::MIN
    }
}

/// Writes `value` in two's complement into the eight bytes of `dst` at
/// `offset`, and nothing else.
pub fn write_i64_le(dst: &mut [u8], offset: usize, value: i64)
    requires
        offset + 8 <= old(dst)@.len(),
    ensures
        final(dst)@.len() == old(dst)@.len(),
        final(dst)@ == old(dst)@.subrange(0, offset as int) + le_bytes(twos_complement(value), 8)
            + old(dst)@.subrange(offset + 8, old(dst)@.len() as int),
{
    let pattern: u64 = if value >= 0 {
        value as u64
    } else {
        let low: i64 = value - i64::MIN;
        low as u64 + 0x8000_0000_0000_0000
    };
    write_u64_le(dst, offset, pattern);
}

} // verus!
