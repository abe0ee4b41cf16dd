//! Little-endian encodings of fixed-width integers, written with `byteorder`.
use byteorder::{LittleEndian, WriteBytesExt};
use vstd::prelude::*;

verus! {

/// The two bytes of `n`, least significant first.
pub open spec fn le16(n: u16) -> Seq<u8> {
    seq![(n % 256) as u8, (n / 256) as u8]
}

/// The four bytes of `n`, least significant first.
pub open spec fn le32(n: u32) -> Seq<u8> {
    seq![(n % 256) as u8, ((n / 256) % 256) as u8, ((n / 65536) % 256) as u8, (n / 16777216) as u8]
}

/// The number that four little-endian bytes stand for.
pub open spec fn from_le32(b: Seq<u8>) -> int {
    b[0] + 256 * b[1] + 65536 * b[2] + 16777216 * b[3]
}

/// The number that two little-endian bytes stand for.
pub open spec fn from_le16(b: Seq<u8>) -> int {
    b[0] + 256 * b[1]
}

/// Reading back the four bytes of `n` gives `n`.
pub proof fn lemma_le32_roundtrip(n: u32)
    ensures
        le32(n).len() == 4,
        from_le32(le32(n)) == n,
{
}

/// Reading back the two bytes of `n` gives `n`.
pub proof fn lemma_le16_roundtrip(n: u16)
    ensures
        le16(n).len() == 2,
        from_le16(le16(n)) == n,
{
}

/// Appends `n` to `buf` in little-endian order with
/// `byteorder::WriteBytesExt::write_u32::<LittleEndian>`, which writes
/// `n.to_le_bytes()`; writing to a `Vec<u8>` cannot fail.
#[verifier::external_body]
pub(crate) fn push_u32_le(buf: &mut Vec<u8>, n: u32)
    ensures
        final(buf)@ == old(buf)@ + le32(n),
{
    buf.write_u32::<LittleEndian>(n).unwrap();
}

/// Appends `n` to `buf` in little-endian order with
/// `byteorder::WriteBytesExt::write_u16::<LittleEndian>`, which writes
/// `n.to_le_bytes()`; writing to a `Vec<u8>` cannot fail.
#[verifier::external_body]
pub(crate) fn push_u16_le(buf: &mut Vec<u8>, n: u16)
    ensures
        final(buf)@ == old(buf)@ + le16(n),
{
    buf.write_u16::<LittleEndian>(n).unwrap();
}

} // verus!
