//! Little-endian integer fields and byte-buffer helpers.

use vstd::prelude::*;

verus! {

/// The two-byte little-endian field holding `value`; a value that needs more
/// than 16 bits is truncated to its low 16 bits.
pub open spec fn le16(value: nat) -> Seq<u8> {
    seq![(value % 256) as u8, (value / 256 % 256) as u8]
}

/// The four-byte little-endian field holding `value`; a value that needs more
/// than 32 bits is truncated to its low 32 bits.
pub open spec fn le32(value: nat) -> Seq<u8> {
    seq![
        (value % 256) as u8,
        (value / 256 % 256) as u8,
        (value / 65536 % 256) as u8,
        (value / 16777216 % 256) as u8,
    ]
}

/// The number that a two-byte little-endian field holds.
pub open spec fn le16_value(field: Seq<u8>) -> nat
    recommends
        field.len() == 2,
{
    (field[0] + 256 * field[1]) as nat
}

/// The number that a four-byte little-endian field holds.
pub open spec fn le32_value(field: Seq<u8>) -> nat
    recommends
        field.len() == 4,
{
    (field[0] + 256 * field[1] + 65536 * field[2] + 16777216 * field[3]) as nat
}

/// A 16-bit field reads back as the value it was given, modulo 2^16.
pub proof fn lemma_le16_value(value: nat)
    ensures
        le16(value).len() == 2,
        le16_value(le16(value)) == value % 0x1_0000,
        value < 0x1_0000 ==> le16_value(le16(value)) == value,
{
}

/// A 32-bit field reads back as the value it was given, modulo 2^32.
pub proof fn lemma_le32_value(value: nat)
    ensures
        le32(value).len() == 4,
        le32_value(le32(value)) == value % 0x1_0000_0000,
        value < 0x1_0000_0000 ==> le32_value(le32(value)) == value,
{
}

/// Appends one byte.
pub fn put_u8(buf: &mut Vec<u8>, byte: u8)
    ensures
        final(buf)@ == old(buf)@.push(byte),
{
    buf.push(byte);
}

/// Appends the low 16 bits of `value`, least significant byte first.
pub fn put_le16(buf: &mut Vec<u8>, value: u64)
    ensures
        final(buf)@ == old(buf)@ + le16(value as nat),
{
    buf.push((value % 256) as u8);
    buf.push((value / 256 % 256) as u8);
    assert(buf@ =~= old(buf)@ + le16(value as nat));
}

/// Appends the low 32 bits of `value`, least significant byte first.
pub fn put_le32(buf: &mut Vec<u8>, value: u64)
    ensures
        final(buf)@ == old(buf)@ + le32(value as nat),
{
    buf.push((value % 256) as u8);
    buf.push((value / 256 % 256) as u8);
    buf.push((value / 65536 % 256) as u8);
    buf.push((value / 16777216 % 256) as u8);
    assert(buf@ =~= old(buf)@ + le32(value as nat));
}

/// Appends a copy of `bytes`.
pub fn put_bytes(buf: &mut Vec<u8>, bytes: &[u8])
    ensures
        final(buf)@ == old(buf)@ + bytes@,
{
    let mut i: usize = 0;
    while i < bytes.len()
        invariant
            i <= bytes.len(),
            buf@ == old(buf)@ + bytes@.take(i as int),
        decreases bytes.len() - i,
    {
        buf.push(bytes[i]);
        assert(bytes@.take(i + 1) =~= bytes@.take(i as int).push(bytes@[i as int]));
        i += 1;
    }
    assert(bytes@.take(i as int) =~= bytes@);
}

} // verus!
